//! The saved rules that label accounts: records by account identifier, and
//! name patterns that are tried in order.

use crate::player::{texts, PlayerRecord, PlayerRecordView, PlayerType};
use crate::text::{
    char_at, holds, lines_of, read_steamid, skip_spaces, slice_text, spaces_end, split_lines,
    steamid_end, str_eq, to_chars,
};
use crate::trusted::{pattern_matches, plainly_compiled, regex_source};
use regex::Regex;
use vstd::prelude::*;

verus! {

/// A name pattern and the label it gives.
pub struct NameRule {
    pub regex: Regex,
    pub player_type: PlayerType,
}

/// The mathematical value of a [`NameRule`]: the pattern's text and the label.
pub ghost struct NameRuleView {
    pub pattern: Seq<char>,
    pub player_type: PlayerType,
}

impl View for NameRule {
    type V = NameRuleView;

    open spec fn view(&self) -> NameRuleView {
        NameRuleView { pattern: regex_source(self.regex), player_type: self.player_type }
    }
}

/// The mathematical value of the rules.
pub ghost struct RulesView {
    /// The saved records, at most one for each account.
    pub records: Seq<PlayerRecordView>,
    /// The name patterns in the order in which they are tried.
    pub patterns: Seq<NameRuleView>,
}

/// The values of a list of records.
pub open spec fn record_views(rs: Seq<PlayerRecord>) -> Seq<PlayerRecordView> {
    Seq::new(rs.len(), |i: int| rs[i]@)
}

/// The values of a list of name rules.
pub open spec fn rule_views(rs: Seq<NameRule>) -> Seq<NameRuleView> {
    Seq::new(rs.len(), |i: int| rs[i]@)
}

/// No two records are about the same account.
pub open spec fn distinct_accounts(rs: Seq<PlayerRecordView>) -> bool {
    forall|i: int, j: int|
        0 <= i < rs.len() && 0 <= j < rs.len() && i != j ==> rs[i].steamid != rs[j].steamid
}

/// No two rules have the same pattern text.
pub open spec fn distinct_patterns(rs: Seq<NameRuleView>) -> bool {
    forall|i: int, j: int|
        0 <= i < rs.len() && 0 <= j < rs.len() && i != j ==> rs[i].pattern != rs[j].pattern
}

/// Some record is about the account.
pub open spec fn has_record(rs: Seq<PlayerRecordView>, steamid: Seq<char>) -> bool {
    exists|i: int| 0 <= i < rs.len() && rs[i].steamid == steamid
}

/// The position of the record about the account.
pub open spec fn record_index(rs: Seq<PlayerRecordView>, steamid: Seq<char>) -> int
    recommends
        has_record(rs, steamid),
{
    choose|i: int| 0 <= i < rs.len() && rs[i].steamid == steamid
}

/// The record about the account, if there is one.
pub open spec fn record_of(rs: Seq<PlayerRecordView>, steamid: Seq<char>) -> Option<
    PlayerRecordView,
> {
    if has_record(rs, steamid) {
        Some(rs[record_index(rs, steamid)])
    } else {
        None
    }
}

/// The records with `record` in the place of the one about its account, or
/// at the end where there is none.
pub open spec fn record_merged(rs: Seq<PlayerRecordView>, record: PlayerRecordView) -> Seq<
    PlayerRecordView,
> {
    if has_record(rs, record.steamid) {
        rs.update(record_index(rs, record.steamid), record)
    } else {
        rs.push(record)
    }
}

/// Some rule has the pattern text.
pub open spec fn has_pattern(rs: Seq<NameRuleView>, pattern: Seq<char>) -> bool {
    exists|i: int| 0 <= i < rs.len() && rs[i].pattern == pattern
}

/// The position of the rule with the pattern text.
pub open spec fn pattern_index(rs: Seq<NameRuleView>, pattern: Seq<char>) -> int
    recommends
        has_pattern(rs, pattern),
{
    choose|i: int| 0 <= i < rs.len() && rs[i].pattern == pattern
}

/// The rules with `rule` in the place of the one with its pattern text, or
/// at the end where there is none.
pub open spec fn rule_merged(rs: Seq<NameRuleView>, rule: NameRuleView) -> Seq<NameRuleView> {
    if has_pattern(rs, rule.pattern) {
        rs.update(pattern_index(rs, rule.pattern), rule)
    } else {
        rs.push(rule)
    }
}

/// The label of the first rule whose pattern matches the name.
pub open spec fn name_verdict(rs: Seq<NameRuleView>, name: Seq<char>) -> Option<PlayerType>
    decreases rs.len(),
{
    if rs.len() == 0 {
        None
    } else if pattern_matches(rs[0].pattern, name) {
        Some(rs[0].player_type)
    } else {
        name_verdict(rs.drop_first(), name)
    }
}

/// The label of an account: that of its record where it has one, else that
/// of the first name pattern that matches, else `Player`.
pub open spec fn classification(rules: RulesView, steamid: Seq<char>, name: Seq<char>) -> PlayerType {
    match record_of(rules.records, steamid) {
        Some(r) => r.player_type,
        None => match name_verdict(rules.patterns, name) {
            Some(t) => t,
            None => PlayerType::Player,
        },
    }
}

/// A line that holds only whitespace.
pub open spec fn is_blank(line: Seq<char>) -> bool {
    spaces_end(line, 0) == line.len()
}

/// The account identifier that a line of an identifier list holds: the
/// identifier, in square brackets or without them, with whitespace or
/// nothing around it.
pub open spec fn list_entry(line: Seq<char>) -> Option<Seq<char>> {
    let a = spaces_end(line, 0);
    let b = if char_at(line, a, '[') {
        a + 1
    } else {
        a
    };
    match steamid_end(line, b) {
        Some(e) => {
            let f = if char_at(line, e, ']') {
                e + 1
            } else {
                e
            };
            if spaces_end(line, f) == line.len() {
                Some(line.subrange(b, e))
            } else {
                None
            }
        },
        None => None,
    }
}

/// The account identifiers that the lines of an identifier list hold, in order.
pub open spec fn list_ids(lines: Seq<Seq<char>>) -> Seq<Seq<char>>
    decreases lines.len(),
{
    if lines.len() == 0 {
        Seq::empty()
    } else {
        match list_entry(lines.last()) {
            Some(id) => list_ids(lines.drop_last()).push(id),
            None => list_ids(lines.drop_last()),
        }
    }
}

/// The positions of the lines of an identifier list that are neither blank
/// nor an account identifier.
pub open spec fn rejected_ids(lines: Seq<Seq<char>>) -> Seq<usize>
    decreases lines.len(),
{
    if lines.len() == 0 {
        Seq::empty()
    } else if !is_blank(lines.last()) && list_entry(lines.last()) is None {
        rejected_ids(lines.drop_last()).push((lines.len() - 1) as usize)
    } else {
        rejected_ids(lines.drop_last())
    }
}

/// The records after each of the accounts, in order, was given the label and the notes.
pub open spec fn ids_merged(
    rs: Seq<PlayerRecordView>,
    ids: Seq<Seq<char>>,
    player_type: PlayerType,
    notes: Seq<char>,
) -> Seq<PlayerRecordView>
    decreases ids.len(),
{
    if ids.len() == 0 {
        rs
    } else {
        record_merged(
            ids_merged(rs, ids.drop_last(), player_type, notes),
            PlayerRecordView { steamid: ids.last(), player_type, notes },
        )
    }
}

/// The lines of a pattern list that were taken as patterns: those that are
/// not empty and whose position is not among the rejected ones.
pub open spec fn taken_patterns(lines: Seq<Seq<char>>, rejected: Seq<usize>) -> Seq<Seq<char>>
    decreases lines.len(),
{
    if lines.len() == 0 {
        Seq::empty()
    } else if lines.last().len() > 0 && !rejected.contains((lines.len() - 1) as usize) {
        taken_patterns(lines.drop_last(), rejected).push(lines.last())
    } else {
        taken_patterns(lines.drop_last(), rejected)
    }
}

/// The rules after each of the patterns, in order, was given the label.
pub open spec fn patterns_merged(
    rs: Seq<NameRuleView>,
    patterns: Seq<Seq<char>>,
    player_type: PlayerType,
) -> Seq<NameRuleView>
    decreases patterns.len(),
{
    if patterns.len() == 0 {
        rs
    } else {
        rule_merged(
            patterns_merged(rs, patterns.drop_last(), player_type),
            NameRuleView { pattern: patterns.last(), player_type },
        )
    }
}

/// Lines written one after the other, each followed by a line feed.
pub open spec fn written_lines(lines: Seq<Seq<char>>) -> Seq<char>
    decreases lines.len(),
{
    if lines.len() == 0 {
        Seq::empty()
    } else {
        written_lines(lines.drop_last()) + lines.last() + seq!['\n']
    }
}

/// The accounts with a label, in the order of their records.
pub open spec fn accounts_of(rs: Seq<PlayerRecordView>, player_type: PlayerType) -> Seq<Seq<char>>
    decreases rs.len(),
{
    if rs.len() == 0 {
        Seq::empty()
    } else if rs.last().player_type == player_type {
        accounts_of(rs.drop_last(), player_type).push(rs.last().steamid)
    } else {
        accounts_of(rs.drop_last(), player_type)
    }
}

/// The pattern texts of the rules, in their order.
pub open spec fn pattern_texts(rs: Seq<NameRuleView>) -> Seq<Seq<char>> {
    Seq::new(rs.len(), |i: int| rs[i].pattern)
}

/// Each position is larger than the one before it.
pub open spec fn increasing(positions: Seq<usize>) -> bool {
    forall|a: int, b: int| 0 <= a < b < positions.len() ==> positions[a] < positions[b]
}

/// What an import took and what it left out.
#[derive(Debug)]
pub struct ImportReport {
    /// How many lines gave a rule.
    pub imported: usize,
    /// The positions, from zero, of the lines that were refused.
    pub rejected: Vec<usize>,
}

/// Why a rule was not taken.
#[derive(Clone, Copy, Debug, PartialEq, Eq, Structural)]
pub enum ImportError {
    /// The pattern could not be compiled.
    BadPattern,
}

/// The saved rules.
pub struct PlayerChecker {
    players: Vec<PlayerRecord>,
    regexes: Vec<NameRule>,
}

impl View for PlayerChecker {
    type V = RulesView;

    closed spec fn view(&self) -> RulesView {
        RulesView { records: record_views(self.players@), patterns: rule_views(self.regexes@) }
    }
}

/// Where the record about `steamid` is, if anywhere.
fn find_record(rs: &Vec<PlayerRecord>, steamid: &str) -> (r: Option<usize>)
    requires
        distinct_accounts(record_views(rs@)),
    ensures
        r is Some <==> has_record(record_views(rs@), steamid@),
        r matches Some(i) ==> i == record_index(record_views(rs@), steamid@) && i < rs.len(),
{
    let mut i: usize = 0;
    while i < rs.len()
        invariant
            i <= rs.len(),
            distinct_accounts(record_views(rs@)),
            forall|j: int| 0 <= j < i ==> record_views(rs@)[j].steamid != steamid@,
        decreases rs.len() - i,
    {
        if str_eq(rs[i].steamid.as_str(), steamid) {
            assert(record_views(rs@)[i as int].steamid == steamid@);
            return Some(i);
        }
        i += 1;
    }
    None
}

/// Where the rule with the pattern text is, if anywhere.
fn find_pattern(rs: &Vec<NameRule>, pattern: &str) -> (r: Option<usize>)
    requires
        distinct_patterns(rule_views(rs@)),
    ensures
        r is Some <==> has_pattern(rule_views(rs@), pattern@),
        r matches Some(i) ==> i == pattern_index(rule_views(rs@), pattern@) && i < rs.len(),
{
    let mut i: usize = 0;
    while i < rs.len()
        invariant
            i <= rs.len(),
            distinct_patterns(rule_views(rs@)),
            forall|j: int| 0 <= j < i ==> rule_views(rs@)[j].pattern != pattern@,
        decreases rs.len() - i,
    {
        if str_eq(rs[i].regex.as_str(), pattern) {
            assert(rule_views(rs@)[i as int].pattern == pattern@);
            return Some(i);
        }
        i += 1;
    }
    None
}

impl PlayerChecker {
    /// Every pattern of the rules was compiled with the options at their
    /// defaults, so that its text says what it matches.
    pub closed spec fn plain(&self) -> bool {
        forall|i: int| 0 <= i < self.regexes@.len() ==> plainly_compiled(#[trigger] self.regexes@[i].regex)
    }

    /// The invariant of the rules: one record for an account, one rule for a
    /// pattern text, and every pattern compiled with the options at their
    /// defaults.
    pub open spec fn wf(&self) -> bool {
        distinct_accounts(self@.records) && distinct_patterns(self@.patterns) && self.plain()
    }

    /// No rules.
    pub fn new() -> (c: PlayerChecker)
        ensures
            c.wf(),
            c@.records == Seq::<PlayerRecordView>::empty(),
            c@.patterns == Seq::<NameRuleView>::empty(),
    {
        let c = PlayerChecker { players: Vec::new(), regexes: Vec::new() };
        assert(c@.records =~= Seq::<PlayerRecordView>::empty());
        assert(c@.patterns =~= Seq::<NameRuleView>::empty());
        c
    }

    /// The saved records.
    pub fn get_records(&self) -> (rs: &Vec<PlayerRecord>)
        ensures
            record_views(rs@) == self@.records,
    {
        &self.players
    }

    /// The name rules in the order in which they are tried.
    pub fn get_regexes(&self) -> (rs: &Vec<NameRule>)
        ensures
            rule_views(rs@) == self@.patterns,
            self.wf() ==> forall|i: int|
                0 <= i < rs@.len() ==> plainly_compiled(#[trigger] rs@[i].regex),
    {
        &self.regexes
    }

    /// The record about an account, if one is saved.
    pub fn check_player_steamid(&self, steamid: &str) -> (r: Option<PlayerRecord>)
        requires
            self.wf(),
        ensures
            r is Some <==> has_record(self@.records, steamid@),
            r matches Some(record) ==> Some(record@) == record_of(self@.records, steamid@),
    {
        match find_record(&self.players, steamid) {
            Some(i) => Some(self.players[i].clone()),
            None => None,
        }
    }

    /// The label of the first name rule whose pattern matches the name.
    pub fn check_player_name(&self, name: &str) -> (r: Option<PlayerType>)
        requires
            self.wf(),
        ensures
            r == name_verdict(self@.patterns, name@),
    {
        let ghost all = rule_views(self.regexes@);
        let mut i: usize = 0;
        proof {
            assert(all.skip(0) =~= all);
        }
        while i < self.regexes.len()
            invariant
                i <= self.regexes.len(),
                self.plain(),
                all == rule_views(self.regexes@),
                name_verdict(all, name@) == name_verdict(all.skip(i as int), name@),
            decreases self.regexes.len() - i,
        {
            proof {
                assert(all.skip(i as int)[0] == all[i as int]);
                assert(all.skip(i as int).drop_first() =~= all.skip(i + 1));
            }
            if self.regexes[i].regex.is_match(name) {
                return Some(self.regexes[i].player_type);
            }
            i += 1;
        }
        None
    }

    /// The label of an account that goes by a name: that of its record where
    /// one is saved, whatever the name; else that of the first name pattern
    /// that matches; else `Player`.
    pub fn classify(&self, steamid: &str, name: &str) -> (t: PlayerType)
        requires
            self.wf(),
        ensures
            t == classification(self@, steamid@, name@),
    {
        match find_record(&self.players, steamid) {
            Some(i) => self.players[i].player_type,
            None => match self.check_player_name(name) {
                Some(t) => t,
                None => PlayerType::Player,
            },
        }
    }

    /// Saves a record, in the place of the one about the same account or,
    /// where there is none, at the end.
    pub fn update_player_record(&mut self, record: PlayerRecord)
        requires
            old(self).wf(),
        ensures
            final(self).wf(),
            final(self)@.records == record_merged(old(self)@.records, record@),
            final(self)@.patterns == old(self)@.patterns,
    {
        match find_record(&self.players, record.steamid.as_str()) {
            Some(i) => {
                self.players.set(i, record);
            },
            None => {
                self.players.push(record);
            },
        }
        assert(self@.records =~= record_merged(old(self)@.records, record@));
    }

    /// Takes what compiling a pattern with `Regex::new` gave. A compiled
    /// pattern becomes a rule with the given label, in the place of the rule with the same
    /// pattern text or, where there is none, at the end. A pattern that did
    /// not compile changes nothing.
    pub fn accept_rule(&mut self, compiled: Result<Regex, regex::Error>, player_type: PlayerType) -> (r:
        Result<(), ImportError>)
        requires
            old(self).wf(),
            compiled matches Ok(re) ==> plainly_compiled(re),
        ensures
            final(self).wf(),
            final(self)@.records == old(self)@.records,
            match compiled {
                Ok(re) => r is Ok && final(self)@.patterns == rule_merged(
                    old(self)@.patterns,
                    NameRuleView { pattern: regex_source(re), player_type },
                ),
                Err(_) => r == Err::<(), ImportError>(ImportError::BadPattern) && final(self)@.patterns
                    == old(self)@.patterns,
            },
    {
        match compiled {
            Ok(regex) => {
                let rule = NameRule { regex, player_type };
                match find_pattern(&self.regexes, rule.regex.as_str()) {
                    Some(i) => {
                        self.regexes.set(i, rule);
                    },
                    None => {
                        self.regexes.push(rule);
                    },
                }
                assert(self@.patterns =~= rule_merged(old(self)@.patterns, rule@));
                Ok(())
            },
            Err(_) => Err(ImportError::BadPattern),
        }
    }

    /// Compiles a pattern and makes it a rule with the given label. Whether
    /// a pattern compiles is for the pattern compiler to say; a pattern that
    /// does not compile changes nothing.
    pub fn add_regex(&mut self, pattern: &str, player_type: PlayerType) -> (r: Result<(), ImportError>)
        requires
            old(self).wf(),
        ensures
            final(self).wf(),
            final(self)@.records == old(self)@.records,
            match r {
                Ok(_) => final(self)@.patterns == rule_merged(
                    old(self)@.patterns,
                    NameRuleView { pattern: pattern@, player_type },
                ),
                Err(e) => e == ImportError::BadPattern && final(self)@.patterns == old(
                    self,
                )@.patterns,
            },
    {
        self.accept_rule(Regex::new(pattern), player_type)
    }
}

/// Reads the account identifier that a line of an identifier list holds.
pub fn read_list_entry(line: &str) -> (r: Option<String>)
    ensures
        match r {
            Some(id) => list_entry(line@) == Some(id@),
            None => list_entry(line@) is None,
        },
{
    let v = to_chars(line);
    let a = skip_spaces(&v, 0);
    let b = if holds(&v, a, '[') {
        a + 1
    } else {
        a
    };
    match read_steamid(&v, b) {
        Some(e) => {
            let f = if holds(&v, e, ']') {
                e + 1
            } else {
                e
            };
            if skip_spaces(&v, f) == v.len() {
                Some(slice_text(&v, b, e))
            } else {
                None
            }
        },
        None => None,
    }
}

/// Whether a line holds only whitespace.
pub fn line_is_blank(line: &str) -> (r: bool)
    ensures
        r == is_blank(line@),
{
    let v = to_chars(line);
    skip_spaces(&v, 0) == v.len()
}

impl PlayerChecker {
    /// The identifier list of the accounts with a label: one account on
    /// each line, in the order of the records.
    pub fn export_steamid_list(&self, player_type: PlayerType) -> (r: String)
        ensures
            r@ == written_lines(accounts_of(self@.records, player_type)),
    {
        let ghost all = record_views(self.players@);
        let mut r = String::new();
        let mut i: usize = 0;
        proof {
            assert(all.take(0) =~= Seq::<PlayerRecordView>::empty());
        }
        while i < self.players.len()
            invariant
                i <= self.players.len(),
                all == record_views(self.players@),
                r@ == written_lines(accounts_of(all.take(i as int), player_type)),
            decreases self.players.len() - i,
        {
            proof {
                assert(all.take(i + 1).drop_last() =~= all.take(i as int));
                assert(all.take(i + 1).last() == self.players@[i as int]@);
            }
            if self.players[i].player_type == player_type {
                let ghost before = accounts_of(all.take(i as int), player_type);
                r.append(self.players[i].steamid.as_str());
                r.push('\n');
                proof {
                    let after = accounts_of(all.take(i + 1), player_type);
                    assert(after.drop_last() =~= before);
                }
            }
            i += 1;
        }
        proof {
            assert(all.take(self.players.len() as int) =~= all);
        }
        r
    }

    /// The pattern list of the rules: one pattern text on each line, in the
    /// order of the rules.
    pub fn export_regex_list(&self) -> (r: String)
        ensures
            r@ == written_lines(pattern_texts(self@.patterns)),
    {
        let ghost all = pattern_texts(rule_views(self.regexes@));
        let mut r = String::new();
        let mut i: usize = 0;
        proof {
            assert(all.take(0) =~= Seq::<Seq<char>>::empty());
        }
        while i < self.regexes.len()
            invariant
                i <= self.regexes.len(),
                all == pattern_texts(rule_views(self.regexes@)),
                r@ == written_lines(all.take(i as int)),
            decreases self.regexes.len() - i,
        {
            proof {
                assert(all.take(i + 1).drop_last() =~= all.take(i as int));
                assert(all.take(i + 1).last() == self.regexes@[i as int]@.pattern);
            }
            r.append(self.regexes[i].regex.as_str());
            r.push('\n');
            i += 1;
        }
        proof {
            assert(all.take(self.regexes.len() as int) =~= all);
        }
        r
    }

    /// Takes the lines of an identifier list: every account that a line
    /// names gets a record with the given label and notes, in the place of
    /// the record it had or at the end. Blank lines are passed over, and the
    /// positions of the other lines that name no account are reported.
    pub fn read_from_steamid_list(
        &mut self,
        contents: &str,
        as_player_type: PlayerType,
        notes: &str,
    ) -> (report: ImportReport)
        requires
            old(self).wf(),
        ensures
            final(self).wf(),
            final(self)@.patterns == old(self)@.patterns,
            final(self)@.records == ids_merged(
                old(self)@.records,
                list_ids(lines_of(contents@)),
                as_player_type,
                notes@,
            ),
            report.imported == list_ids(lines_of(contents@)).len(),
            report.rejected@ == rejected_ids(lines_of(contents@)),
    {
        let lines = split_lines(contents);
        let ghost all = texts(lines@);
        let mut report = ImportReport { imported: 0, rejected: Vec::new() };
        let mut i: usize = 0;
        proof {
            assert(all.take(0) =~= Seq::<Seq<char>>::empty());
        }
        while i < lines.len()
            invariant
                i <= lines.len(),
                all == texts(lines@),
                self.wf(),
                self@.patterns == old(self)@.patterns,
                self@.records == ids_merged(
                    old(self)@.records,
                    list_ids(all.take(i as int)),
                    as_player_type,
                    notes@,
                ),
                report.imported == list_ids(all.take(i as int)).len(),
                report.imported <= i,
                report.rejected@ == rejected_ids(all.take(i as int)),
            decreases lines.len() - i,
        {
            proof {
                assert(all.take(i + 1).drop_last() =~= all.take(i as int));
                assert(all.take(i + 1).last() == lines@[i as int]@);
            }
            match read_list_entry(lines[i].as_str()) {
                Some(steamid) => {
                    proof {
                        let ids = list_ids(all.take(i + 1));
                        assert(ids.drop_last() =~= list_ids(all.take(i as int)));
                    }
                    self.update_player_record(
                        PlayerRecord {
                            steamid,
                            player_type: as_player_type,
                            notes: notes.to_owned(),
                        },
                    );
                    report.imported += 1;
                },
                None => {
                    if !line_is_blank(lines[i].as_str()) {
                        report.rejected.push(i);
                    }
                },
            }
            i += 1;
        }
        proof {
            assert(all.take(lines.len() as int) =~= all);
        }
        report
    }

    /// Takes the lines of a pattern list: every line that is not empty is
    /// compiled and, where that succeeds, becomes a rule with the label
    /// `Bot`, in the place of the rule with the same pattern text or at the
    /// end. The positions of the lines that did not compile are reported,
    /// each once and in their order.
    pub fn read_regex_list(&mut self, contents: &str) -> (report: ImportReport)
        requires
            old(self).wf(),
        ensures
            final(self).wf(),
            final(self)@.records == old(self)@.records,
            final(self)@.patterns == patterns_merged(
                old(self)@.patterns,
                taken_patterns(lines_of(contents@), report.rejected@),
                PlayerType::Bot,
            ),
            report.imported == taken_patterns(lines_of(contents@), report.rejected@).len(),
            increasing(report.rejected@),
            forall|k: int|
                0 <= k < report.rejected@.len() ==> (#[trigger] report.rejected@[k])
                    < lines_of(contents@).len() && lines_of(contents@)[report.rejected@[k] as int].len()
                    > 0,
    {
        let lines = split_lines(contents);
        let ghost all = texts(lines@);
        let mut report = ImportReport { imported: 0, rejected: Vec::new() };
        let mut i: usize = 0;
        proof {
            assert(all.take(0) =~= Seq::<Seq<char>>::empty());
        }
        while i < lines.len()
            invariant
                i <= lines.len(),
                all == texts(lines@),
                self.wf(),
                self@.records == old(self)@.records,
                self@.patterns == patterns_merged(
                    old(self)@.patterns,
                    taken_patterns(all.take(i as int), report.rejected@),
                    PlayerType::Bot,
                ),
                report.imported == taken_patterns(all.take(i as int), report.rejected@).len(),
                report.imported <= i,
                increasing(report.rejected@),
                forall|k: int|
                    0 <= k < report.rejected@.len() ==> (#[trigger] report.rejected@[k]) < i
                        && all[report.rejected@[k] as int].len() > 0,
            decreases lines.len() - i,
        {
            let ghost before = report.rejected@;
            proof {
                assert(all.take(i + 1).drop_last() =~= all.take(i as int));
                assert(all.take(i + 1).last() == lines@[i as int]@);
            }
            let line = lines[i].as_str();
            if line.unicode_len() > 0 {
                match self.add_regex(line, PlayerType::Bot) {
                    Ok(_) => {
                        proof {
                            assert(!before.contains(i));
                            let taken = taken_patterns(all.take(i + 1), before);
                            assert(taken.drop_last() =~= taken_patterns(all.take(i as int), before));
                        }
                        report.imported += 1;
                    },
                    Err(_) => {
                        report.rejected.push(i);
                        proof {
                            assert(report.rejected@.last() == i);
                            assert(report.rejected@.contains(i));
                            lemma_taken_ignores_later(all.take(i as int), before, i);
                        }
                    },
                }
            }
            i += 1;
        }
        proof {
            assert(all.take(lines.len() as int) =~= all);
        }
        report
    }
}

/// Rejecting a position at or after the end of the lines changes nothing.
proof fn lemma_taken_ignores_later(lines: Seq<Seq<char>>, rejected: Seq<usize>, at: usize)
    requires
        lines.len() <= at,
    ensures
        taken_patterns(lines, rejected.push(at)) == taken_patterns(lines, rejected),
    decreases lines.len(),
{
    if lines.len() > 0 {
        lemma_taken_ignores_later(lines.drop_last(), rejected, at);
        let k = (lines.len() - 1) as usize;
        assert(rejected.push(at).contains(k) <==> rejected.contains(k)) by {
            if rejected.contains(k) {
                let j = choose|j: int| 0 <= j < rejected.len() && rejected[j] == k;
                assert(rejected.push(at)[j] == k);
            }
            if rejected.push(at).contains(k) {
                let j = choose|j: int| 0 <= j < rejected.push(at).len() && rejected.push(at)[j] == k;
                assert(j < rejected.len());
                assert(rejected[j] == k);
            }
        }
    }
}

/// What merging a record does to a lookup: the records stay one for an
/// account, the merged account has the merged record, and every other
/// account has what it had.
pub proof fn lemma_record_merged(rs: Seq<PlayerRecordView>, r: PlayerRecordView, id: Seq<char>)
    requires
        distinct_accounts(rs),
    ensures
        distinct_accounts(record_merged(rs, r)),
        record_of(record_merged(rs, r), id) == if id == r.steamid {
            Some(r)
        } else {
            record_of(rs, id)
        },
{
    let m = record_merged(rs, r);
    if has_record(rs, r.steamid) {
        let i = record_index(rs, r.steamid);
        assert(forall|k: int| 0 <= k < rs.len() ==> m[k].steamid == rs[k].steamid);
        if id == r.steamid {
            assert(m[i].steamid == id);
        } else if has_record(rs, id) {
            let j = record_index(rs, id);
            assert(m[j].steamid == id);
        } else if has_record(m, id) {
            let j = record_index(m, id);
            assert(rs[j].steamid == id);
        }
    } else {
        let n = rs.len() as int;
        assert(m[n] == r);
        assert(forall|k: int| 0 <= k < n ==> m[k] == rs[k]);
        if id == r.steamid {
            assert(m[n].steamid == id);
        } else if has_record(rs, id) {
            let j = record_index(rs, id);
            assert(m[j].steamid == id);
        } else if has_record(m, id) {
            let j = record_index(m, id);
            assert(rs[j].steamid == id);
        }
    }
}

/// After accounts were given a label and notes, each of them has the
/// record that says so.
proof fn lemma_ids_merged_present(
    rs: Seq<PlayerRecordView>,
    ids: Seq<Seq<char>>,
    player_type: PlayerType,
    notes: Seq<char>,
)
    requires
        distinct_accounts(rs),
    ensures
        distinct_accounts(ids_merged(rs, ids, player_type, notes)),
        forall|k: int|
            0 <= k < ids.len() ==> record_of(
                ids_merged(rs, ids, player_type, notes),
                #[trigger] ids[k],
            ) == Some(PlayerRecordView { steamid: ids[k], player_type, notes }),
    decreases ids.len(),
{
    if ids.len() > 0 {
        let before = ids_merged(rs, ids.drop_last(), player_type, notes);
        let r = PlayerRecordView { steamid: ids.last(), player_type, notes };
        lemma_ids_merged_present(rs, ids.drop_last(), player_type, notes);
        assert forall|k: int| 0 <= k < ids.len() implies record_of(
            ids_merged(rs, ids, player_type, notes),
            #[trigger] ids[k],
        ) == Some(PlayerRecordView { steamid: ids[k], player_type, notes }) by {
            lemma_record_merged(before, r, ids[k]);
            if k < ids.len() - 1 {
                assert(ids.drop_last()[k] == ids[k]);
            }
        }
        lemma_record_merged(before, r, ids.last());
    }
}

/// Giving accounts the label and notes that their records hold changes nothing.
proof fn lemma_ids_merged_fixed(
    rs: Seq<PlayerRecordView>,
    ids: Seq<Seq<char>>,
    player_type: PlayerType,
    notes: Seq<char>,
)
    requires
        distinct_accounts(rs),
        forall|k: int|
            0 <= k < ids.len() ==> record_of(rs, #[trigger] ids[k]) == Some(
                PlayerRecordView { steamid: ids[k], player_type, notes },
            ),
    ensures
        ids_merged(rs, ids, player_type, notes) == rs,
    decreases ids.len(),
{
    if ids.len() > 0 {
        assert forall|k: int| 0 <= k < ids.drop_last().len() implies record_of(
            rs,
            #[trigger] ids.drop_last()[k],
        ) == Some(PlayerRecordView { steamid: ids.drop_last()[k], player_type, notes }) by {
            assert(ids.drop_last()[k] == ids[k]);
        }
        lemma_ids_merged_fixed(rs, ids.drop_last(), player_type, notes);
        let k = ids.len() - 1;
        assert(record_of(rs, ids[k]) == Some(
            PlayerRecordView { steamid: ids[k], player_type, notes },
        ));
        assert(record_merged(rs, PlayerRecordView { steamid: ids.last(), player_type, notes })
            =~= rs);
    }
}

/// Importing the same identifier list a second time, with the same label
/// and notes, leaves the records as the first import left them.
pub proof fn lemma_steamid_list_twice(
    rs: Seq<PlayerRecordView>,
    ids: Seq<Seq<char>>,
    player_type: PlayerType,
    notes: Seq<char>,
)
    requires
        distinct_accounts(rs),
    ensures
        ids_merged(ids_merged(rs, ids, player_type, notes), ids, player_type, notes) == ids_merged(
            rs,
            ids,
            player_type,
            notes,
        ),
{
    lemma_ids_merged_present(rs, ids, player_type, notes);
    lemma_ids_merged_fixed(ids_merged(rs, ids, player_type, notes), ids, player_type, notes);
}

/// The rule with a pattern text, if there is one.
pub open spec fn rule_of(rs: Seq<NameRuleView>, pattern: Seq<char>) -> Option<NameRuleView> {
    if has_pattern(rs, pattern) {
        Some(rs[pattern_index(rs, pattern)])
    } else {
        None
    }
}

/// What merging a rule does to a lookup: the rules stay one for a pattern
/// text, the merged pattern has the merged rule, and every other pattern
/// has what it had.
pub proof fn lemma_rule_merged(rs: Seq<NameRuleView>, r: NameRuleView, pattern: Seq<char>)
    requires
        distinct_patterns(rs),
    ensures
        distinct_patterns(rule_merged(rs, r)),
        rule_of(rule_merged(rs, r), pattern) == if pattern == r.pattern {
            Some(r)
        } else {
            rule_of(rs, pattern)
        },
{
    let m = rule_merged(rs, r);
    if has_pattern(rs, r.pattern) {
        let i = pattern_index(rs, r.pattern);
        assert(forall|k: int| 0 <= k < rs.len() ==> m[k].pattern == rs[k].pattern);
        if pattern == r.pattern {
            assert(m[i].pattern == pattern);
        } else if has_pattern(rs, pattern) {
            let j = pattern_index(rs, pattern);
            assert(m[j].pattern == pattern);
        } else if has_pattern(m, pattern) {
            let j = pattern_index(m, pattern);
            assert(rs[j].pattern == pattern);
        }
    } else {
        let n = rs.len() as int;
        assert(m[n] == r);
        assert(forall|k: int| 0 <= k < n ==> m[k] == rs[k]);
        if pattern == r.pattern {
            assert(m[n].pattern == pattern);
        } else if has_pattern(rs, pattern) {
            let j = pattern_index(rs, pattern);
            assert(m[j].pattern == pattern);
        } else if has_pattern(m, pattern) {
            let j = pattern_index(m, pattern);
            assert(rs[j].pattern == pattern);
        }
    }
}

/// After patterns were given a label, each of them has the rule that says so.
proof fn lemma_patterns_merged_present(
    rs: Seq<NameRuleView>,
    patterns: Seq<Seq<char>>,
    player_type: PlayerType,
)
    requires
        distinct_patterns(rs),
    ensures
        distinct_patterns(patterns_merged(rs, patterns, player_type)),
        forall|k: int|
            0 <= k < patterns.len() ==> rule_of(
                patterns_merged(rs, patterns, player_type),
                #[trigger] patterns[k],
            ) == Some(NameRuleView { pattern: patterns[k], player_type }),
    decreases patterns.len(),
{
    if patterns.len() > 0 {
        let before = patterns_merged(rs, patterns.drop_last(), player_type);
        let r = NameRuleView { pattern: patterns.last(), player_type };
        lemma_patterns_merged_present(rs, patterns.drop_last(), player_type);
        assert forall|k: int| 0 <= k < patterns.len() implies rule_of(
            patterns_merged(rs, patterns, player_type),
            #[trigger] patterns[k],
        ) == Some(NameRuleView { pattern: patterns[k], player_type }) by {
            lemma_rule_merged(before, r, patterns[k]);
            if k < patterns.len() - 1 {
                assert(patterns.drop_last()[k] == patterns[k]);
            }
        }
        lemma_rule_merged(before, r, patterns.last());
    }
}

/// Giving patterns the label that their rules hold changes nothing.
proof fn lemma_patterns_merged_fixed(
    rs: Seq<NameRuleView>,
    patterns: Seq<Seq<char>>,
    player_type: PlayerType,
)
    requires
        distinct_patterns(rs),
        forall|k: int|
            0 <= k < patterns.len() ==> rule_of(rs, #[trigger] patterns[k]) == Some(
                NameRuleView { pattern: patterns[k], player_type },
            ),
    ensures
        patterns_merged(rs, patterns, player_type) == rs,
    decreases patterns.len(),
{
    if patterns.len() > 0 {
        assert forall|k: int| 0 <= k < patterns.drop_last().len() implies rule_of(
            rs,
            #[trigger] patterns.drop_last()[k],
        ) == Some(NameRuleView { pattern: patterns.drop_last()[k], player_type }) by {
            assert(patterns.drop_last()[k] == patterns[k]);
        }
        lemma_patterns_merged_fixed(rs, patterns.drop_last(), player_type);
        let k = patterns.len() - 1;
        assert(rule_of(rs, patterns[k]) == Some(NameRuleView { pattern: patterns[k], player_type }));
        assert(rule_merged(rs, NameRuleView { pattern: patterns.last(), player_type }) =~= rs);
    }
}

/// Importing a pattern list a second time, with the same lines compiling,
/// leaves the rules as the first import left them.
pub proof fn lemma_regex_list_twice(
    rs: Seq<NameRuleView>,
    patterns: Seq<Seq<char>>,
    player_type: PlayerType,
)
    requires
        distinct_patterns(rs),
    ensures
        patterns_merged(patterns_merged(rs, patterns, player_type), patterns, player_type)
            == patterns_merged(rs, patterns, player_type),
{
    lemma_patterns_merged_present(rs, patterns, player_type);
    lemma_patterns_merged_fixed(patterns_merged(rs, patterns, player_type), patterns, player_type);
}

/// A line that can be written out and read back: it holds no line feed and
/// does not end in a carriage return.
pub open spec fn plain_line(line: Seq<char>) -> bool {
    (forall|i: int| 0 <= i < line.len() ==> line[i] != '\n') && !(line.len() > 0 && line.last()
        == '\r')
}

/// Writing lines out after a first line writes the first line, a line feed,
/// and the others.
proof fn lemma_written_after(first: Seq<char>, rest: Seq<Seq<char>>)
    ensures
        written_lines(seq![first] + rest) == first + seq!['\n'] + written_lines(rest),
    decreases rest.len(),
{
    let all = seq![first] + rest;
    if rest.len() == 0 {
        let none = Seq::<Seq<char>>::empty();
        assert(all.drop_last() =~= none);
        assert(rest =~= none);
        assert(all.last() == first);
        assert(written_lines(none) =~= Seq::<char>::empty());
        assert(written_lines(all) =~= first + seq!['\n'] + written_lines(rest));
    } else {
        assert(all.drop_last() =~= seq![first] + rest.drop_last());
        assert(all.last() == rest.last());
        lemma_written_after(first, rest.drop_last());
        assert(written_lines(all) =~= first + seq!['\n'] + written_lines(rest));
    }
}

/// Up to a line feed that no line feed stands before, a line ends there.
proof fn lemma_line_end_at(s: Seq<char>, from: int, n: int)
    requires
        0 <= from <= n < s.len(),
        forall|i: int| from <= i < n ==> s[i] != '\n',
        s[n] == '\n',
    ensures
        crate::text::line_end(s, from) == n,
    decreases n - from,
{
    if from < n {
        lemma_line_end_at(s, from + 1, n);
    }
}

/// Lines that were written out are read back as they were: a list that was
/// exported holds, line by line, what it was made from.
pub proof fn lemma_written_lines_read_back(lines: Seq<Seq<char>>)
    requires
        forall|k: int| 0 <= k < lines.len() ==> plain_line(#[trigger] lines[k]),
    ensures
        lines_of(written_lines(lines)) == lines,
    decreases lines.len(),
{
    if lines.len() == 0 {
        assert(lines_of(written_lines(lines)) =~= lines);
    } else {
        let first = lines[0];
        let rest = lines.drop_first();
        assert(lines =~= seq![first] + rest);
        lemma_written_after(first, rest);
        let text = first + seq!['\n'] + written_lines(rest);
        let n = first.len() as int;
        assert(plain_line(lines[0]));
        assert(forall|i: int| 0 <= i < n ==> text[i] == first[i]);
        assert(text[n] == '\n');
        lemma_line_end_at(text, 0, n);
        assert(text.take(n) =~= first);
        assert(text.skip(n + 1) =~= written_lines(rest));
        assert forall|k: int| 0 <= k < rest.len() implies plain_line(#[trigger] rest[k]) by {
            assert(rest[k] == lines[k + 1]);
        }
        lemma_written_lines_read_back(rest);
        assert(lines_of(text) =~= seq![first] + rest);
    }
}

/// An account with a saved record gets the record's label whatever its
/// name is, also where the name matches a name pattern.
pub proof fn lemma_record_decides(
    rules: RulesView,
    steamid: Seq<char>,
    name: Seq<char>,
    other_name: Seq<char>,
)
    requires
        has_record(rules.records, steamid),
    ensures
        classification(rules, steamid, name) == record_of(rules.records, steamid)->0.player_type,
        classification(rules, steamid, name) == classification(rules, steamid, other_name),
{
}

} // verus!
