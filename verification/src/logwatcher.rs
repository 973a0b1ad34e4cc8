//! Following a log file that another process appends to.
//!
//! The file itself is read by the caller. Before each read it tells the
//! watcher what it sees of the file and learns where to read from; then it
//! hands over the bytes it read and gets the lines that are complete.

use crate::player::texts;
use crate::trusted::{decode_lossy, lossy_text};
use vstd::prelude::*;
use vstd::utf8::{decode_utf8, encode_utf8, is_ascii_chars, valid_utf8};

verus! {

/// The line feed that ends a line.
pub const LINE_FEED: u8 = 10;

/// The carriage return that may stand before a line feed.
pub const CARRIAGE_RETURN: u8 = 13;

/// What the caller sees of the file: something that tells one file from
/// another under the same path, and the length in bytes.
#[derive(Clone, Copy, Debug, PartialEq, Eq, Structural)]
pub struct FileStat {
    pub id: u64,
    pub len: u64,
}

/// Why the file could not be opened.
#[derive(Clone, Copy, Debug, PartialEq, Eq, Structural)]
pub enum OpenError {
    NotFound,
    PermissionDenied,
}

/// The mathematical value of a [`LogWatcher`].
pub ghost struct WatcherView {
    /// The file that the cursor belongs to.
    pub file: u64,
    /// How many bytes of the file were taken.
    pub cursor: u64,
    /// The bytes taken after the last line feed: a line that is not complete.
    pub pending: Seq<u8>,
    /// Whether the file was there when it was last looked at.
    pub active: bool,
}

/// The first position at or after `from` that holds a line feed, or the
/// length of `b` where there is none.
pub open spec fn feed_at(b: Seq<u8>, from: int) -> int
    decreases b.len() - from,
{
    if 0 <= from < b.len() && b[from] != LINE_FEED {
        feed_at(b, from + 1)
    } else {
        from
    }
}

/// A line's bytes without the carriage return at their end, if there is one.
pub open spec fn trimmed(line: Seq<u8>) -> Seq<u8> {
    if line.len() > 0 && line.last() == CARRIAGE_RETURN {
        line.drop_last()
    } else {
        line
    }
}

/// The complete lines in `b`: the bytes before each line feed, from the
/// line feed before it on, without a carriage return at their end.
pub open spec fn complete_lines(b: Seq<u8>) -> Seq<Seq<u8>>
    decreases b.len(),
{
    let n = feed_at(b, 0);
    if 0 <= n < b.len() {
        seq![trimmed(b.take(n))] + complete_lines(b.skip(n + 1))
    } else {
        Seq::empty()
    }
}

/// What follows the last line feed in `b`: all of `b` where it has none.
pub open spec fn unfinished(b: Seq<u8>) -> Seq<u8>
    decreases b.len(),
{
    let n = feed_at(b, 0);
    if 0 <= n < b.len() {
        unfinished(b.skip(n + 1))
    } else {
        b
    }
}

/// No byte is a line feed.
pub open spec fn no_feed(b: Seq<u8>) -> bool {
    forall|i: int| 0 <= i < b.len() ==> b[i] != LINE_FEED
}

/// The text of a line's bytes: the text that they encode where they are
/// valid UTF-8, and else the text with the replacement character in the
/// place of what is not.
pub open spec fn line_text(bytes: Seq<u8>) -> Seq<char> {
    if valid_utf8(bytes) {
        decode_utf8(bytes)
    } else {
        lossy_text(bytes)
    }
}

/// The texts of lines of bytes.
pub open spec fn decoded(lines: Seq<Seq<u8>>) -> Seq<Seq<char>> {
    Seq::new(lines.len(), |i: int| line_text(lines[i]))
}

/// Whether the file seen is another one than the cursor belongs to, or has
/// become shorter than the cursor.
pub open spec fn restarted(w: WatcherView, stat: FileStat) -> bool {
    stat.id != w.file || stat.len < w.cursor
}

/// The watcher after a look at the file. A missing file makes it inactive
/// and leaves the rest. A file that was replaced or cut is read from its
/// start, and the unfinished line of the old file is dropped.
pub open spec fn observed(w: WatcherView, stat: Option<FileStat>) -> WatcherView {
    match stat {
        None => WatcherView { active: false, ..w },
        Some(st) => if restarted(w, st) {
            WatcherView { file: st.id, cursor: 0, pending: Seq::empty(), active: true }
        } else {
            WatcherView { active: true, ..w }
        },
    }
}

/// The cursor after `count` more bytes, which stops at the largest number.
pub open spec fn advanced(cursor: u64, count: nat) -> u64 {
    if cursor + count <= u64::MAX {
        (cursor + count) as u64
    } else {
        u64::MAX
    }
}

/// Follows one file.
pub struct LogWatcher {
    file: u64,
    cursor: u64,
    pending: Vec<u8>,
    active: bool,
}

impl View for LogWatcher {
    type V = WatcherView;

    closed spec fn view(&self) -> WatcherView {
        WatcherView {
            file: self.file,
            cursor: self.cursor,
            pending: self.pending@,
            active: self.active,
        }
    }
}

/// Before the first line feed nothing but what was skipped: the first line
/// feed at or after `k` is the first of all where none stands before `k`.
pub proof fn lemma_feed_after_clean(b: Seq<u8>, from: int, k: int)
    requires
        0 <= from <= k <= b.len(),
        forall|i: int| from <= i < k ==> b[i] != LINE_FEED,
    ensures
        feed_at(b, from) == feed_at(b, k),
    decreases k - from,
{
    if from < k {
        lemma_feed_after_clean(b, from + 1, k);
    }
}

/// Where the first line feed at or after `from` stands: no line feed stands
/// before it, and one stands there unless the bytes end first.
pub proof fn lemma_feed_at(b: Seq<u8>, from: int)
    requires
        0 <= from <= b.len(),
    ensures
        from <= feed_at(b, from) <= b.len(),
        forall|i: int| from <= i < feed_at(b, from) ==> b[i] != LINE_FEED,
        feed_at(b, from) < b.len() ==> b[feed_at(b, from)] == LINE_FEED,
    decreases b.len() - from,
{
    if from < b.len() && b[from] != LINE_FEED {
        lemma_feed_at(b, from + 1);
    }
}

/// The lines that come out do not depend on how the bytes were cut into
/// reads: taking `first` and then `second` gives, one after the other, the
/// lines that taking both at once gives, and holds back the same bytes.
pub proof fn lemma_reads_join(first: Seq<u8>, second: Seq<u8>)
    ensures
        complete_lines(first + second) == complete_lines(first) + complete_lines(
            unfinished(first) + second,
        ),
        unfinished(first + second) == unfinished(unfinished(first) + second),
    decreases first.len(),
{
    let n = feed_at(first, 0);
    lemma_feed_at(first, 0);
    if n < first.len() {
        let both = first + second;
        assert(forall|i: int| 0 <= i < n ==> both[i] == first[i]);
        assert(both[n] == first[n]);
        lemma_feed_after_clean(both, 0, n);
        assert(feed_at(both, 0) == n);
        assert(both.take(n) =~= first.take(n));
        assert(both.skip(n + 1) =~= first.skip(n + 1) + second);
        lemma_reads_join(first.skip(n + 1), second);
        assert(complete_lines(both) =~= complete_lines(first) + complete_lines(
            unfinished(first) + second,
        ));
    } else {
        assert(complete_lines(first) =~= Seq::<Seq<u8>>::empty());
        assert(complete_lines(first + second) =~= complete_lines(first) + complete_lines(
            first + second,
        ));
    }
}

/// Bytes without a line feed complete no line: all of them are held back.
pub proof fn lemma_partial_line_held(b: Seq<u8>)
    requires
        no_feed(b),
    ensures
        complete_lines(b) == Seq::<Seq<u8>>::empty(),
        unfinished(b) == b,
{
    lemma_feed_after_clean(b, 0, b.len() as int);
}

/// A line feed completes the line that was held back: the bytes before it
/// are the one line that comes out, and nothing is held back.
pub proof fn lemma_line_feed_completes(held: Seq<u8>)
    requires
        no_feed(held),
    ensures
        complete_lines(held.push(LINE_FEED)) == seq![trimmed(held)],
        unfinished(held.push(LINE_FEED)) == Seq::<u8>::empty(),
{
    let b = held.push(LINE_FEED);
    lemma_feed_after_clean(b, 0, held.len() as int);
    let nothing = Seq::<u8>::empty();
    assert(b[held.len() as int] == LINE_FEED);
    assert(feed_at(b, 0) == held.len());
    assert(b.take(held.len() as int) =~= held);
    assert(b.skip(held.len() as int + 1) =~= nothing);
    assert(complete_lines(nothing) =~= Seq::<Seq<u8>>::empty());
    assert(unfinished(nothing) =~= nothing);
    assert(complete_lines(b) =~= seq![trimmed(held)]);
}

/// A text that can stand on one line of the log: ASCII, without a line
/// feed, and not ending in a carriage return.
pub open spec fn one_line(text: Seq<char>) -> bool {
    &&& is_ascii_chars(text)
    &&& forall|i: int| 0 <= i < text.len() ==> text[i] != '\n'
    &&& !(text.len() > 0 && text.last() == '\r')
}

/// The text that bytes encode comes back as the text of the line.
pub proof fn lemma_text_comes_back(text: Seq<char>)
    ensures
        line_text(encode_utf8(text)) == text,
{
    vstd::utf8::encode_utf8_valid_utf8(text);
    vstd::utf8::encode_utf8_decode_utf8(text);
}

/// The bytes of a text that can stand on one line hold no line feed and do
/// not end in a carriage return.
pub proof fn lemma_one_line_bytes(text: Seq<char>)
    requires
        one_line(text),
    ensures
        no_feed(encode_utf8(text)),
        trimmed(encode_utf8(text)) == encode_utf8(text),
        encode_utf8(text).len() == text.len(),
{
    vstd::utf8::is_ascii_chars_encode_utf8(text);
    let bytes = encode_utf8(text);
    assert forall|i: int| 0 <= i < bytes.len() implies bytes[i] != LINE_FEED by {
        assert(text[i] as u8 == bytes[i]);
        assert('\0' <= text[i] <= '\u{7f}');
        assert(text[i] != '\n');
    }
    if bytes.len() > 0 {
        let last = bytes.len() - 1;
        assert(text[last] as u8 == bytes[last]);
        assert('\0' <= text[last] <= '\u{7f}');
        assert(text[last] != '\r');
    }
}

/// Two lines appended in one write come out as two lines, with their texts
/// and without their line feeds, and nothing is held back.
pub proof fn lemma_two_lines_written(first: Seq<char>, second: Seq<char>)
    requires
        one_line(first),
        one_line(second),
    ensures
        decoded(
            complete_lines(encode_utf8(first).push(LINE_FEED) + encode_utf8(second).push(LINE_FEED)),
        ) == seq![first, second],
        unfinished(encode_utf8(first).push(LINE_FEED) + encode_utf8(second).push(LINE_FEED))
            == Seq::<u8>::empty(),
{
    let a = encode_utf8(first);
    let b = encode_utf8(second);
    let x = a.push(LINE_FEED);
    let y = b.push(LINE_FEED);
    lemma_one_line_bytes(first);
    lemma_one_line_bytes(second);
    lemma_line_feed_completes(a);
    lemma_line_feed_completes(b);
    lemma_reads_join(x, y);
    assert(unfinished(x) + y =~= y);
    lemma_text_comes_back(first);
    lemma_text_comes_back(second);
    assert(complete_lines(x + y) =~= seq![a, b]);
    assert(decoded(seq![a, b]) =~= seq![first, second]);
}

/// A text appended without a line feed gives no line; when the rest of the
/// line and its line feed arrive, one line comes out, whole: what was held
/// back and then the rest.
pub proof fn lemma_partial_line_completed(partial: Seq<char>, rest: Seq<char>)
    requires
        one_line(partial + rest),
    ensures
        complete_lines(encode_utf8(partial)) == Seq::<Seq<u8>>::empty(),
        unfinished(encode_utf8(partial)) == encode_utf8(partial),
        decoded(complete_lines(encode_utf8(partial) + encode_utf8(rest).push(LINE_FEED))) == seq![
            partial + rest,
        ],
        unfinished(encode_utf8(partial) + encode_utf8(rest).push(LINE_FEED)) == Seq::<u8>::empty(),
{
    let whole = partial + rest;
    assert(is_ascii_chars(partial) && is_ascii_chars(rest)) by {
        assert forall|i: int| 0 <= i < partial.len() implies '\0' <= #[trigger] partial[i]
            <= '\u{7f}' by {
            assert(whole[i] == partial[i]);
        }
        assert forall|i: int| 0 <= i < rest.len() implies '\0' <= #[trigger] rest[i] <= '\u{7f}' by {
            assert(whole[partial.len() + i] == rest[i]);
        }
    }
    vstd::utf8::is_ascii_chars_encode_utf8(partial);
    vstd::utf8::is_ascii_chars_encode_utf8(rest);
    vstd::utf8::is_ascii_chars_encode_utf8(whole);
    let p = encode_utf8(partial);
    let r = encode_utf8(rest);
    let w = encode_utf8(whole);
    assert(p + r =~= w) by {
        assert forall|i: int| 0 <= i < w.len() implies (p + r)[i] == w[i] by {
            if i < p.len() {
                assert(partial[i] as u8 == p[i]);
                assert(whole[i] as u8 == w[i]);
            } else {
                assert(rest[i - p.len()] as u8 == r[i - p.len()]);
                assert(whole[i] as u8 == w[i]);
                assert(whole[i] == rest[i - p.len()]);
            }
        }
    }
    lemma_one_line_bytes(whole);
    assert(no_feed(p)) by {
        assert forall|i: int| 0 <= i < p.len() implies p[i] != LINE_FEED by {
            assert(w[i] == p[i]);
        }
    }
    lemma_partial_line_held(p);
    lemma_line_feed_completes(w);
    assert(p + r.push(LINE_FEED) =~= w.push(LINE_FEED));
    lemma_text_comes_back(whole);
    assert(decoded(seq![w]) =~= seq![whole]);
}

impl LogWatcher {
    /// The invariant of the watcher: the unfinished line holds no line feed.
    pub open spec fn wf(&self) -> bool {
        no_feed(self@.pending)
    }

    /// A watcher for the file as it is seen now. It starts at the end of
    /// the file: only what is appended from now on is handed out.
    pub fn register(stat: FileStat) -> (w: LogWatcher)
        ensures
            w.wf(),
            w@ == (WatcherView {
                file: stat.id,
                cursor: stat.len,
                pending: Seq::empty(),
                active: true,
            }),
    {
        LogWatcher { file: stat.id, cursor: stat.len, pending: Vec::new(), active: true }
    }

    /// Takes what opening the file gave: a watcher that starts at the end
    /// of the file, or the reason why there is none.
    pub fn open(observed: Result<FileStat, OpenError>) -> (r: Result<LogWatcher, OpenError>)
        ensures
            match observed {
                Ok(stat) => r matches Ok(w) && w.wf() && w@ == (WatcherView {
                    file: stat.id,
                    cursor: stat.len,
                    pending: Seq::empty(),
                    active: true,
                }),
                Err(e) => r matches Err(x) && x == e,
            },
    {
        match observed {
            Ok(stat) => Ok(LogWatcher::register(stat)),
            Err(e) => Err(e),
        }
    }

    /// Whether the file was there when it was last looked at.
    pub fn is_active(&self) -> (b: bool)
        ensures
            b == self@.active,
    {
        self.active
    }

    /// Takes what the caller sees of the file, `None` for a missing file,
    /// and returns where to read from, up to the end of the file. Nothing
    /// is to read from a missing file.
    pub fn observe(&mut self, stat: Option<FileStat>) -> (from: Option<u64>)
        requires
            old(self).wf(),
        ensures
            final(self).wf(),
            final(self)@ == observed(old(self)@, stat),
            from == match stat {
                None => None,
                Some(_) => Some(final(self)@.cursor),
            },
    {
        match stat {
            None => {
                self.active = false;
                None
            },
            Some(st) => {
                self.active = true;
                if st.id != self.file || st.len < self.cursor {
                    self.file = st.id;
                    self.cursor = 0;
                    self.pending = Vec::new();
                }
                Some(self.cursor)
            },
        }
    }

    /// Takes the bytes read from the cursor on and returns the lines that
    /// they complete, the first one starting with what was held back
    /// before. What follows the last line feed is held back.
    pub fn poll(&mut self, data: &[u8]) -> (lines: Vec<String>)
        requires
            old(self).wf(),
        ensures
            final(self).wf(),
            texts(lines@) == decoded(complete_lines(old(self)@.pending + data@)),
            final(self)@.pending == unfinished(old(self)@.pending + data@),
            final(self)@.cursor == advanced(old(self)@.cursor, data@.len()),
            final(self)@.file == old(self)@.file,
            final(self)@.active == old(self)@.active,
    {
        let ghost all = self.pending@ + data@;
        let mut lines: Vec<String> = Vec::new();
        let mut current: Vec<u8> = Vec::new();
        std::mem::swap(&mut self.pending, &mut current);
        let mut i: usize = 0;
        proof {
            assert(current@ + data@.skip(0) =~= all);
            assert(texts(lines@) =~= Seq::<Seq<char>>::empty());
            assert(texts(lines@) + decoded(complete_lines(all)) =~= decoded(complete_lines(all)));
        }
        while i < data.len()
            invariant
                i <= data.len(),
                no_feed(current@),
                decoded(complete_lines(all)) == texts(lines@) + decoded(
                    complete_lines(current@ + data@.skip(i as int)),
                ),
                unfinished(all) == unfinished(current@ + data@.skip(i as int)),
            decreases data.len() - i,
        {
            let ghost rest = current@ + data@.skip(i as int);
            let ghost before = texts(lines@);
            let byte = data[i];
            proof {
                assert(rest[current@.len() as int] == byte);
                lemma_feed_after_clean(rest, 0, current@.len() as int);
            }
            if byte == LINE_FEED {
                proof {
                    assert(feed_at(rest, 0) == current@.len());
                    assert(rest.take(current@.len() as int) =~= current@);
                    assert(rest.skip(current@.len() as int + 1) =~= data@.skip(i + 1));
                }
                let n = current.len();
                if n > 0 && current[n - 1] == CARRIAGE_RETURN {
                    current.pop();
                }
                let line = decode_lossy(&current);
                lines.push(line);
                current = Vec::new();
                proof {
                    let tail = complete_lines(data@.skip(i + 1));
                    assert(current@ + data@.skip(i + 1) =~= data@.skip(i + 1));
                    assert(texts(lines@) =~= before.push(line@));
                    assert(decoded(seq![trimmed(rest.take(n as int))] + tail) =~= seq![line@]
                        + decoded(tail));
                    assert(before + (seq![line@] + decoded(tail)) =~= before.push(line@) + decoded(
                        tail,
                    ));
                }
            } else {
                current.push(byte);
                proof {
                    assert(current@ + data@.skip(i + 1) =~= rest);
                }
            }
            i += 1;
        }
        proof {
            assert(current@ + data@.skip(i as int) =~= current@);
            lemma_feed_after_clean(current@, 0, current@.len() as int);
            assert(decoded(complete_lines(current@)) =~= Seq::<Seq<char>>::empty());
            assert(texts(lines@) + Seq::<Seq<char>>::empty() =~= texts(lines@));
        }
        self.pending = current;
        self.cursor = advance(self.cursor, data.len());
        lines
    }
}

/// The cursor after `count` more bytes.
fn advance(cursor: u64, count: usize) -> (r: u64)
    ensures
        r == advanced(cursor, count as nat),
{
    let room: u64 = u64::MAX - cursor;
    if count as u64 <= room && count as u128 <= u64::MAX as u128 {
        cursor + count as u64
    } else {
        u64::MAX
    }
}

} // verus!
