use vstd::prelude::*;
use crate::rpc::starts_with;
use crate::sse::sse_event_text;
use crate::text::{decimal, digit_char};
use crate::text::{chars_of, chars_string, owned, push_str, str_eq, string_push};

verus! {

// ---------------------------------------------------------------------------
// Lines of an event block
// ---------------------------------------------------------------------------

/// Position of the first `c` in `s` at or after `i`.
pub open spec fn find_char_from(s: Seq<char>, c: char, i: int) -> Option<int>
    decreases s.len() - i,
{
    if i < 0 || i >= s.len() {
        None
    } else if s[i] == c {
        Some(i)
    } else {
        find_char_from(s, c, i + 1)
    }
}

/// What a position found by [`find_char_from`] means.
pub proof fn lemma_find_char_from(s: Seq<char>, c: char, i: int)
    requires
        0 <= i,
    ensures
        match find_char_from(s, c, i) {
            Some(j) => i <= j < s.len() && s[j] == c && forall|l: int| i <= l < j ==> s[l] != c,
            None => forall|l: int| i <= l < s.len() ==> s[l] != c,
        },
    decreases s.len() - i,
{
    if i < s.len() && s[i] != c {
        lemma_find_char_from(s, c, i + 1);
    }
}

/// `l` without one trailing carriage return.
pub open spec fn strip_cr(l: Seq<char>) -> Seq<char> {
    if l.len() > 0 && l.last() == '\r' {
        l.drop_last()
    } else {
        l
    }
}

/// The lines of `s`: split at each `\n`, a line ended by `\n` losing one
/// trailing `\r`; a last line without `\n` is kept as it is, and nothing
/// follows a final `\n`.
pub open spec fn text_lines(s: Seq<char>) -> Seq<Seq<char>>
    decreases s.len(),
{
    if s.len() == 0 {
        Seq::empty()
    } else {
        match find_char_from(s, '\n', 0) {
            Some(i) => if 0 <= i < s.len() {
                seq![strip_cr(s.take(i))] + text_lines(s.skip(i + 1))
            } else {
                Seq::empty()
            },
            None => seq![s],
        }
    }
}

/// The event type and data lines after one more line `l`: an `event: `
/// line sets the type, a `data: ` line (or a bare `data:`) adds a data line,
/// and every other line changes nothing.
pub open spec fn scan_step(acc: (Seq<char>, Seq<Seq<char>>), l: Seq<char>) -> (Seq<char>, Seq<Seq<char>>) {
    if starts_with(l, "event: "@) {
        (l.skip(7), acc.1)
    } else if starts_with(l, "data: "@) {
        (acc.0, acc.1.push(l.skip(6)))
    } else if l == "data:"@ {
        (acc.0, acc.1.push(Seq::empty()))
    } else {
        acc
    }
}

/// The event type and data lines after reading `lines` in order.
pub open spec fn scan_lines(lines: Seq<Seq<char>>) -> (Seq<char>, Seq<Seq<char>>)
    decreases lines.len(),
{
    if lines.len() == 0 {
        (Seq::empty(), Seq::empty())
    } else {
        scan_step(scan_lines(lines.drop_last()), lines.last())
    }
}

/// The data lines joined with `\n`.
pub open spec fn join_lines(d: Seq<Seq<char>>) -> Seq<char>
    decreases d.len(),
{
    if d.len() == 0 {
        Seq::empty()
    } else if d.len() == 1 {
        d[0]
    } else {
        join_lines(d.drop_last()) + seq!['\n'] + d.last()
    }
}

/// The event an event block stands for: its type and joined data; `None`
/// when the block sets no type (a comment-only block).
pub open spec fn event_of(block: Seq<char>) -> Option<(Seq<char>, Seq<char>)> {
    let (t, d) = scan_lines(text_lines(block));
    if t.len() == 0 {
        None
    } else {
        Some((t, join_lines(d)))
    }
}

/// A parsed server-sent event.
#[derive(Debug)]
pub struct SseEvent {
    pub event_type: String,
    pub data: String,
}

/// The models of a sequence of strings.
pub open spec fn strings_view(v: Seq<String>) -> Seq<Seq<char>> {
    Seq::new(v.len(), |i: int| v[i]@)
}

/// Whether `cs` starts with the characters of `p`.
fn starts_with_chars(cs: &Vec<char>, p: &str) -> (r: bool)
    ensures
        r == starts_with(cs@, p@),
{
    let ps = chars_of(p);
    if ps.len() > cs.len() {
        return false;
    }
    let mut i: usize = 0;
    while i < ps.len()
        invariant
            ps@ == p@,
            ps@.len() <= cs@.len(),
            0 <= i <= ps@.len(),
            forall|j: int| 0 <= j < i ==> cs@[j] == ps@[j],
        decreases ps@.len() - i,
    {
        if cs[i] != ps[i] {
            proof {
                assert(cs@.take(ps@.len() as int)[i as int] != ps@[i as int]);
            }
            return false;
        }
        i = i + 1;
    }
    proof {
        assert(cs@.take(ps@.len() as int) =~= ps@);
    }
    true
}

/// Reads one more line into the event type and data lines (see
/// [`scan_step`]).
fn scan_line(event_type: &mut String, data_lines: &mut Vec<String>, line: &Vec<char>)
    ensures
        (final(event_type)@, strings_view(final(data_lines)@)) == scan_step(
            (old(event_type)@, strings_view(old(data_lines)@)),
            line@,
        ),
{
    let ghost d0 = strings_view(data_lines@);
    if starts_with_chars(line, "event: ") {
        proof {
            reveal_strlit("event: ");
        }
        *event_type = chars_string(line, 7, line.len());
        proof {
            assert(event_type@ =~= line@.skip(7));
        }
    } else if starts_with_chars(line, "data: ") {
        proof {
            reveal_strlit("data: ");
        }
        data_lines.push(chars_string(line, 6, line.len()));
        proof {
            assert(strings_view(data_lines@) =~= d0.push(line@.skip(6)));
        }
    } else if line.len() == 5 && starts_with_chars(line, "data:") {
        proof {
            reveal_strlit("data:");
            assert(line@ =~= "data:"@);
        }
        data_lines.push(String::new());
        proof {
            assert(strings_view(data_lines@) =~= d0.push(Seq::empty()));
        }
    } else {
        proof {
            reveal_strlit("data:");
            if line@ == "data:"@ {
                assert(line@.take(5) =~= line@);
                assert(starts_with(line@, "data:"@));
            }
        }
    }
}

/// Parses an event block (the text between two blank lines) into its type
/// and data (see [`event_of`]).
pub fn parse_event_block(block: &str) -> (r: Option<SseEvent>)
    ensures
        match event_of(block@) {
            Some((t, d)) => r matches Some(e) && e.event_type@ == t && e.data@ == d,
            None => r is None,
        },
{
    let cs = chars_of(block);
    let n = cs.len();
    let ghost s = cs@;
    let mut event_type = String::new();
    let mut data_lines: Vec<String> = Vec::new();
    let ghost mut lines: Seq<Seq<char>> = Seq::empty();
    let mut start: usize = 0;
    let mut i: usize = 0;
    proof {
        assert(s.skip(0) =~= s);
        assert(strings_view(data_lines@) =~= Seq::<Seq<char>>::empty());
    }
    while i < n
        invariant
            n == s.len(),
            s == cs@,
            s == block@,
            start <= i <= n,
            text_lines(s) == lines + text_lines(s.skip(start as int)),
            forall|l: int| start <= l < i ==> s[l] != '\n',
            (event_type@, strings_view(data_lines@)) == scan_lines(lines),
        decreases n - i,
    {
        if cs[i] == '\n' {
            let ghost rest = s.skip(start as int);
            let mut hi = i;
            if hi > start && cs[hi - 1] == '\r' {
                hi = hi - 1;
            }
            let line_chars = chars_of(chars_string(&cs, start, hi).as_str());
            proof {
                lemma_find_char_from(rest, '\n', 0);
                assert(rest[i - start] == '\n');
                match find_char_from(rest, '\n', 0) {
                    Some(j) => {
                        if j < i - start {
                            assert(rest[j] == s[start + j]);
                        } else if j > i - start {
                            assert(rest[i - start] != '\n');
                        }
                    },
                    None => {
                        assert(rest[i - start] != '\n');
                    },
                }
                assert(find_char_from(rest, '\n', 0) == Some(i - start));
                assert(rest.take(i - start) =~= s.subrange(start as int, i as int));
                assert(strip_cr(rest.take(i - start)) =~= s.subrange(start as int, hi as int));
                assert(rest.skip(i - start + 1) =~= s.skip(i + 1));
                assert(text_lines(rest) == seq![line_chars@] + text_lines(s.skip(i + 1)));
                assert(lines + text_lines(rest) =~= lines.push(line_chars@) + text_lines(s.skip(i + 1)));
                let old_lines = lines;
                lines = lines.push(line_chars@);
                assert(lines.drop_last() =~= old_lines);
            }
            scan_line(&mut event_type, &mut data_lines, &line_chars);
            proof {
                assert(scan_lines(lines) == scan_step(scan_lines(lines.drop_last()), lines.last()));
            }
            start = i + 1;
        }
        i = i + 1;
    }
    if start < n {
        let line_chars = chars_of(chars_string(&cs, start, n).as_str());
        proof {
            let rest = s.skip(start as int);
            lemma_find_char_from(rest, '\n', 0);
            assert(find_char_from(rest, '\n', 0) is None) by {
                match find_char_from(rest, '\n', 0) {
                    Some(j) => {
                        assert(rest[j] == s[start + j]);
                    },
                    None => {},
                }
            }
            assert(rest =~= line_chars@);
            assert(text_lines(rest) == seq![rest]);
            assert(text_lines(s) =~= lines.push(line_chars@));
            let old_lines = lines;
            lines = lines.push(line_chars@);
            assert(lines.drop_last() =~= old_lines);
        }
        scan_line(&mut event_type, &mut data_lines, &line_chars);
        proof {
            assert(scan_lines(lines) == scan_step(scan_lines(lines.drop_last()), lines.last()));
            assert(text_lines(block@) == lines);
        }
    } else {
        proof {
            assert(s.skip(start as int) =~= Seq::<char>::empty());
            assert(text_lines(s) =~= lines);
        }
    }
    if event_type.as_str().is_empty() {
        return None;
    }
    let ghost dv = strings_view(data_lines@);
    let mut data = String::new();
    let m = data_lines.len();
    let mut k: usize = 0;
    proof {
        assert(dv.take(0) =~= Seq::<Seq<char>>::empty());
    }
    while k < m
        invariant
            m == data_lines@.len(),
            dv == strings_view(data_lines@),
            0 <= k <= m,
            data@ == join_lines(dv.take(k as int)),
        decreases m - k,
    {
        let ghost before = data@;
        if k > 0 {
            string_push(&mut data, '\n');
        }
        push_str(&mut data, data_lines[k].as_str());
        proof {
            assert(dv.take(k + 1).drop_last() =~= dv.take(k as int));
            assert(dv.take(k + 1).last() == dv[k as int]);
            if k == 0 {
                assert(data@ =~= dv.take(1)[0]);
            } else {
                assert(data@ =~= join_lines(dv.take(k as int)) + seq!['\n'] + dv[k as int]);
            }
        }
        k = k + 1;
    }
    proof {
        assert(dv.take(m as int) =~= dv);
    }
    Some(SseEvent { event_type, data })
}

// ---------------------------------------------------------------------------
// Extracting events from the receive buffer
// ---------------------------------------------------------------------------

/// Position of the first blank line boundary (`\n\n`) in `s` at or after `i`.
pub open spec fn blank_from(s: Seq<char>, i: int) -> Option<int>
    decreases s.len() - i,
{
    if i < 0 || i + 1 >= s.len() {
        None
    } else if s[i] == '\n' && s[i + 1] == '\n' {
        Some(i)
    } else {
        blank_from(s, i + 1)
    }
}

/// An event the client acts on, with its raw data.
#[derive(Debug)]
pub enum SseFrame {
    /// A `message` event.
    Message(String),
    /// An `error` event.
    Error(String),
}

/// Model of an [`SseFrame`].
pub enum FrameV {
    Message(Seq<char>),
    Error(Seq<char>),
}

/// The model of an optional frame.
pub open spec fn frame_view(f: Option<SseFrame>) -> Option<FrameV> {
    match f {
        Some(SseFrame::Message(d)) => Some(FrameV::Message(d@)),
        Some(SseFrame::Error(d)) => Some(FrameV::Error(d@)),
        None => None,
    }
}

/// Reading complete event blocks from the front of buffer `b`: the buffer
/// left, the frame found, and whether the stream ends. Blocks without a type
/// and events of unknown types are skipped; a `message` gives its frame; an
/// `error` gives its frame and ends the stream; `done` ends the stream with
/// no frame; an incomplete block stays in the buffer.
pub open spec fn extract(b: Seq<char>) -> (Seq<char>, Option<FrameV>, bool)
    decreases b.len(),
{
    match blank_from(b, 0) {
        None => (b, None, false),
        Some(i) => if 0 <= i && i + 2 <= b.len() {
            let rest = b.skip(i + 2);
            match event_of(b.take(i)) {
                None => extract(rest),
                Some((t, d)) => if t == "message"@ {
                    (rest, Some(FrameV::Message(d)), false)
                } else if t == "error"@ {
                    (rest, Some(FrameV::Error(d)), true)
                } else if t == "done"@ {
                    (rest, None, true)
                } else {
                    extract(rest)
                },
            }
        } else {
            (b, None, false)
        },
    }
}

/// Takes complete events off the front of `buffer` until one matters (see
/// [`extract`]); sets `done` when the stream ends.
pub fn try_extract_event(buffer: &mut String, done: &mut bool) -> (r: Option<SseFrame>)
    ensures
        final(buffer)@ == extract(old(buffer)@).0,
        frame_view(r) == extract(old(buffer)@).1,
        *final(done) == (*old(done) || extract(old(buffer)@).2),
{
    let ghost b0 = buffer@;
    let cs = chars_of(buffer.as_str());
    let n = cs.len();
    let mut pos: usize = 0;
    proof {
        assert(cs@.skip(0) =~= cs@);
    }
    loop
        invariant
            n == cs@.len(),
            cs@ == b0,
            b0 == old(buffer)@,
            *done == *old(done),
            0 <= pos <= n,
            extract(b0) == extract(cs@.skip(pos as int)),
        decreases n - pos,
    {
        let ghost rest = cs@.skip(pos as int);
        let mut j = pos;
        let mut found = false;
        while n > 0 && j < n - 1 && !found
            invariant
                n == cs@.len(),
                rest == cs@.skip(pos as int),
                pos <= j,
                j <= n,
                !found ==> blank_from(rest, 0) == blank_from(rest, j - pos),
                found ==> blank_from(rest, 0) == Some(j - pos) && j + 1 < n,
            decreases n - j + if found { 0int } else { 1int },
        {
            if cs[j] == '\n' && cs[j + 1] == '\n' {
                found = true;
            } else {
                j = j + 1;
            }
        }
        if !found {
            *buffer = chars_string(&cs, pos, n);
            proof {
                assert(blank_from(rest, j - pos) is None);
                assert(buffer@ =~= rest);
            }
            return None;
        }
        let block = chars_string(&cs, pos, j);
        let ghost next = cs@.skip(j + 2);
        proof {
            assert(block@ =~= rest.take(j - pos));
            assert(rest.skip(j - pos + 2) =~= next);
        }
        pos = j + 2;
        match parse_event_block(block.as_str()) {
            None => {},
            Some(ev) => {
                if str_eq(ev.event_type.as_str(), "message") {
                    *buffer = chars_string(&cs, pos, n);
                    proof {
                        assert(buffer@ =~= next);
                    }
                    return Some(SseFrame::Message(ev.data));
                } else if str_eq(ev.event_type.as_str(), "error") {
                    *done = true;
                    *buffer = chars_string(&cs, pos, n);
                    proof {
                        assert(buffer@ =~= next);
                    }
                    return Some(SseFrame::Error(ev.data));
                } else if str_eq(ev.event_type.as_str(), "done") {
                    *done = true;
                    *buffer = chars_string(&cs, pos, n);
                    proof {
                        assert(buffer@ =~= next);
                    }
                    return None;
                }
            },
        }
    }
}

// ---------------------------------------------------------------------------
// What the server writes, the client reads
// ---------------------------------------------------------------------------

/// `s` holds no line feed.
pub open spec fn no_newline(s: Seq<char>) -> bool {
    forall|i: int| 0 <= i < s.len() ==> s[i] != '\n'
}

/// A decimal rendering holds digits only.
proof fn lemma_decimal_no_newline(n: nat)
    ensures
        no_newline(decimal(n)),
        decimal(n).len() > 0,
    decreases n,
{
    if n >= 10 {
        lemma_decimal_no_newline(n / 10);
        assert(digit_char(n % 10) != '\n');
        assert forall|i: int| 0 <= i < decimal(n).len() implies decimal(n)[i] != '\n' by {
            if i < decimal(n / 10).len() {
                assert(decimal(n)[i] == decimal(n / 10)[i]);
            }
        }
    } else {
        assert(digit_char(n) != '\n');
    }
}

/// The first line feed of `l + "\n" + r`, for `l` without one, ends `l`.
proof fn lemma_first_newline(l: Seq<char>, r: Seq<char>)
    requires
        no_newline(l),
    ensures
        find_char_from(l + seq!['\n'] + r, '\n', 0) == Some(l.len() as int),
{
    let s = l + seq!['\n'] + r;
    lemma_find_char_from(s, '\n', 0);
    assert(s[l.len() as int] == '\n');
    match find_char_from(s, '\n', 0) {
        Some(j) => {
            if j < l.len() {
                assert(s[j] == l[j]);
            } else if j > l.len() {
                assert(s[l.len() as int] != '\n');
            }
        },
        None => {
            assert(s[l.len() as int] != '\n');
        },
    }
}

/// The lines of `l + "\n" + r`, for `l` without a line feed: `l` (less one
/// trailing carriage return), then the lines of `r`.
proof fn lemma_text_lines_cons(l: Seq<char>, r: Seq<char>)
    requires
        no_newline(l),
    ensures
        text_lines(l + seq!['\n'] + r) == seq![strip_cr(l)] + text_lines(r),
{
    let s = l + seq!['\n'] + r;
    lemma_first_newline(l, r);
    assert(s.take(l.len() as int) =~= l);
    assert(s.skip(l.len() as int + 1) =~= r);
}

/// A non-empty text without a line feed is one line.
proof fn lemma_text_lines_single(l: Seq<char>)
    requires
        no_newline(l),
        l.len() > 0,
    ensures
        text_lines(l) == seq![l],
{
    lemma_find_char_from(l, '\n', 0);
    match find_char_from(l, '\n', 0) {
        Some(j) => {
            assert(l[j] != '\n');
        },
        None => {},
    }
}

/// The first blank line boundary at or after `i` is at `j` when `j` starts
/// one and none starts between.
proof fn lemma_blank_from_at(s: Seq<char>, i: int, j: int)
    requires
        0 <= i <= j,
        j + 1 < s.len(),
        s[j] == '\n' && s[j + 1] == '\n',
        forall|l: int| i <= l < j ==> !(#[trigger] s[l] == '\n' && s[l + 1] == '\n'),
    ensures
        blank_from(s, i) == Some(j),
    decreases j - i,
{
    if i < j {
        lemma_blank_from_at(s, i + 1, j);
    }
}

/// The frame and end flag the client gets for an event of type `t` with data
/// `d`.
pub open spec fn read_back(t: Seq<char>, d: Seq<char>) -> (Seq<char>, Option<FrameV>, bool) {
    if t == "message"@ {
        (Seq::empty(), Some(FrameV::Message(d)), false)
    } else if t == "error"@ {
        (Seq::empty(), Some(FrameV::Error(d)), true)
    } else if t == "done"@ {
        (Seq::empty(), None, true)
    } else {
        (Seq::empty(), None, false)
    }
}

/// The client reads back what the server writes: an event of type `t` with
/// data `d` (neither holding a line feed, `t` not empty and not ending in a
/// carriage return) is parsed into `t` and `d`, and a buffer holding exactly
/// that event gives the frame for it (`message` or `error` with the data,
/// nothing for `done`) and is left empty.
pub proof fn law_sse_roundtrip(t: Seq<char>, id: Option<u64>, d: Seq<char>)
    requires
        t.len() > 0,
        no_newline(t),
        t.last() != '\r',
        no_newline(d),
    ensures
        event_of(sse_event_text(t, id, d).drop_last().drop_last()) == Some((t, d)),

        extract(sse_event_text(t, id, d)) == read_back(t, d),
{
    reveal_strlit("event: ");
    reveal_strlit("id: ");
    reveal_strlit("data:");
    reveal_strlit("data: ");
    reveal_strlit("data:\n");
    reveal_strlit("\n");
    let text = sse_event_text(t, id, d);
    let head = "event: "@ + t;
    let idl: Seq<char> = match id {
        Some(n) => "id: "@ + decimal(n as nat),
        None => Seq::empty(),
    };
    let body: Seq<char> = if d.len() == 0 {
        "data:"@
    } else {
        "data: "@ + d
    };
    assert(no_newline(head)) by {
        assert forall|i: int| 0 <= i < head.len() implies head[i] != '\n' by {
            if i >= 7 {
                assert(head[i] == t[i - 7]);
            }
        }
    }
    assert(no_newline(body)) by {
        assert forall|i: int| 0 <= i < body.len() implies body[i] != '\n' by {
            if d.len() > 0 && i >= 6 {
                assert(body[i] == d[i - 6]);
            }
        }
    }
    match id {
        Some(n) => {
            lemma_decimal_no_newline(n as nat);
            assert forall|i: int| 0 <= i < idl.len() implies idl[i] != '\n' by {
                if i >= 4 {
                    assert(idl[i] == decimal(n as nat)[i - 4]);
                }
            }
        },
        None => {},
    }
    // The block before the final blank line, and its lines.
    let block = text.drop_last().drop_last();
    let tail: Seq<char> = match id {
        Some(_) => idl + seq!['\n'] + body,
        None => body,
    };
    assert(text =~= head + seq!['\n'] + tail + seq!['\n', '\n']);
    assert(block =~= head + seq!['\n'] + tail);
    lemma_text_lines_cons(head, tail);
    assert(strip_cr(head) == head);
    lemma_text_lines_single(body);
    let lines: Seq<Seq<char>> = match id {
        Some(_) => {
            lemma_text_lines_cons(idl, body);
            assert(strip_cr(idl) == idl) by {
                assert(idl.last() != '\r');
            }
            seq![head, idl, body]
        },
        None => seq![head, body],
    };
    assert(text_lines(block) =~= lines);
    // Scanning the lines.
    assert(head.take(7) =~= "event: "@);
    assert(head.skip(7) =~= t);
    let first = scan_step((Seq::empty(), Seq::empty()), head);
    assert(first == (t, Seq::<Seq<char>>::empty()));
    let after_id = match id {
        Some(_) => {
            assert(!starts_with(idl, "event: "@)) by {
                if starts_with(idl, "event: "@) {
                    assert(idl.take(7)[0] == 'e');
                }
            }
            assert(!starts_with(idl, "data: "@)) by {
                if starts_with(idl, "data: "@) {
                    assert(idl.take(6)[0] == 'd');
                }
            }
            assert(idl != "data:"@) by {
                if idl == "data:"@ {
                    assert(idl[0] == 'd');
                }
            }
            scan_step(first, idl)
        },
        None => first,
    };
    assert(after_id == first);
    assert(!starts_with(body, "event: "@)) by {
        if starts_with(body, "event: "@) {
            assert(body.take(7)[0] == 'e');
        }
    }
    let last = scan_step(after_id, body);
    if d.len() == 0 {
        assert(!starts_with(body, "data: "@));
        assert(last == (t, seq![Seq::<char>::empty()]));
    } else {
        assert(body.take(6) =~= "data: "@);
        assert(body.skip(6) =~= d);
        assert(last == (t, seq![d]));
    }
    assert(seq![head].drop_last() =~= Seq::<Seq<char>>::empty());
    assert(scan_lines(Seq::<Seq<char>>::empty()) == (Seq::<char>::empty(), Seq::<Seq<char>>::empty()));
    assert(seq![head].last() == head);
    assert(scan_lines(seq![head]) == scan_step(scan_lines(seq![head].drop_last()), head));
    assert(scan_lines(seq![head]) == first);
    match id {
        Some(_) => {
            assert(seq![head, idl].drop_last() =~= seq![head]);
            assert(seq![head, idl].last() == idl);
            assert(scan_lines(seq![head, idl]) == scan_step(scan_lines(seq![head]), idl));
            assert(scan_lines(seq![head, idl]) == after_id);
            assert(lines.drop_last() =~= seq![head, idl]);
        },
        None => {
            assert(lines.drop_last() =~= seq![head]);
        },
    }
    assert(scan_lines(lines) == last);
    assert(join_lines(last.1) == d);
    // The first blank line boundary is the final one.
    let j = text.len() - 2;
    assert forall|l: int| 0 <= l < j implies !(#[trigger] text[l] == '\n' && text[l + 1] == '\n') by {
        if l < head.len() {
            assert(text[l] == head[l]);
        } else if l == head.len() {
            assert(text[l + 1] == tail[0]);
            match id {
                Some(_) => {
                    assert(tail[0] == idl[0]);
                },
                None => {},
            }
        } else {
            let q = l - head.len() - 1;
            assert(text[l] == tail[q]);
            match id {
                Some(_) => {
                    if q < idl.len() {
                        assert(tail[q] == idl[q]);
                    } else if q == idl.len() {
                        assert(text[l + 1] == tail[q + 1]);
                        assert(tail[q + 1] == body[0]);
                    } else {
                        assert(tail[q] == body[q - idl.len() - 1]);
                    }
                },
                None => {
                    assert(tail[q] == body[q]);
                },
            }
        }
    }
    lemma_blank_from_at(text, 0, j);
    assert(text.take(j) =~= block);
    assert(text.skip(j + 2) =~= Seq::<char>::empty());
    assert(blank_from(Seq::<char>::empty(), 0) is None);
    assert(extract(Seq::<char>::empty()) == (Seq::<char>::empty(), None::<FrameV>, false));
}


/// The lines of `s` followed by a blank line: those of `s`, then one empty
/// line, when `s` ends in neither a line feed nor a carriage return.
proof fn lemma_text_lines_blank_end(s: Seq<char>)
    requires
        s.len() > 0,
        s.last() != '\n',
        s.last() != '\r',
    ensures
        text_lines(s + seq!['\n', '\n']) == text_lines(s).push(Seq::<char>::empty()),
    decreases s.len(),
{
    let u = s + seq!['\n', '\n'];
    let empty = Seq::<char>::empty();
    lemma_find_char_from(s, '\n', 0);
    lemma_find_char_from(u, '\n', 0);
    assert(no_newline(empty));
    lemma_text_lines_cons(empty, empty);
    assert(empty + seq!['\n'] + empty =~= seq!['\n']);
    match find_char_from(s, '\n', 0) {
        None => {
            assert(no_newline(s));
            lemma_text_lines_cons(s, seq!['\n']);
            assert(u =~= s + seq!['\n'] + seq!['\n']);
            assert(strip_cr(s) == s);
        },
        Some(i) => {
            let rest = s.skip(i + 1);
            assert(find_char_from(u, '\n', 0) == Some(i)) by {
                assert(u[i] == s[i]);
                match find_char_from(u, '\n', 0) {
                    Some(x) => {
                        if x < i {
                            assert(u[x] == s[x]);
                        }
                    },
                    None => {},
                }
            }
            assert(i < s.len() - 1);
            assert(u.take(i) =~= s.take(i));
            assert(u.skip(i + 1) =~= rest + seq!['\n', '\n']);
            assert(rest.last() == s.last());
            lemma_text_lines_blank_end(rest);
            assert(text_lines(s) == seq![strip_cr(s.take(i))] + text_lines(rest));
            assert(text_lines(u) == seq![strip_cr(s.take(i))] + text_lines(rest + seq!['\n', '\n']));
            assert(text_lines(u) =~= text_lines(s).push(empty));
        },
    }
}

/// The client's parser inverts the server's formatter on the whole event
/// text, closing blank line included: an event of type `t` with data `d`
/// (neither holding a line feed, `t` not empty, neither ending in a carriage
/// return) is parsed into `t` and `d`, whatever its id.
pub proof fn law_sse_event_text_roundtrip(t: Seq<char>, id: Option<u64>, d: Seq<char>)
    requires
        t.len() > 0,
        no_newline(t),
        t.last() != '\r',
        no_newline(d),
        d.len() == 0 || d.last() != '\r',
    ensures
        event_of(sse_event_text(t, id, d)) == Some((t, d)),
{
    law_sse_roundtrip(t, id, d);
    reveal_strlit("event: ");
    reveal_strlit("data:\n");
    reveal_strlit("data: ");
    reveal_strlit("\n");
    let text = sse_event_text(t, id, d);
    let block = text.drop_last().drop_last();
    let head = "event: "@ + t + "\n"@;
    let id_line = match id {
        Some(n) => "id: "@ + decimal(n as nat) + "\n"@,
        None => Seq::<char>::empty(),
    };
    let data_line = if d.len() == 0 {
        "data:\n"@
    } else {
        "data: "@ + d + "\n"@
    };
    assert(text == head + id_line + data_line + "\n"@);
    let n = text.len();
    assert(text[n - 1] == '\n');
    assert(text[n - 2] == data_line[data_line.len() - 1]);
    assert(text[n - 3] == data_line[data_line.len() - 2]);
    if d.len() == 0 {
        assert(data_line[data_line.len() - 2] == ':');
    } else {
        assert(data_line[data_line.len() - 2] == d.last());
    }
    assert(text =~= block + seq!['\n', '\n']);
    lemma_text_lines_blank_end(block);
    let lines = text_lines(block);
    let empty = Seq::<char>::empty();
    assert(lines.push(empty).drop_last() =~= lines);
    assert(!starts_with(empty, "event: "@));
    assert(!starts_with(empty, "data: "@));
    assert(empty != "data:"@) by {
        reveal_strlit("data:");
    }
    assert(scan_lines(lines.push(empty)) == scan_lines(lines));
}

// ---------------------------------------------------------------------------
// Reading a chunked event stream
// ---------------------------------------------------------------------------

/// The frames the client takes from buffer `b` before it needs more text:
/// events are extracted while they give a frame and the stream goes on. The
/// frames, the buffer left, and whether the stream ended.
pub open spec fn drain(b: Seq<char>) -> (Seq<FrameV>, Seq<char>, bool)
    decreases b.len(),
{
    let (r, f, d) = extract(b);
    match f {
        None => (Seq::empty(), r, d),
        Some(fr) => if d {
            (seq![fr], r, true)
        } else if r.len() < b.len() {
            let (fs, r2, d2) = drain(r);
            (seq![fr] + fs, r2, d2)
        } else {
            (seq![fr], r, false)
        },
    }
}

/// The frames a client reading `chunks` in order, with `b` already in its
/// buffer, takes from the stream, and whether the stream ended: each chunk
/// is appended once everything in the buffer has been taken.
pub open spec fn feed(b: Seq<char>, chunks: Seq<Seq<char>>) -> (Seq<FrameV>, bool)
    decreases chunks.len(),
{
    let (fs, r, d) = drain(b);
    if d || chunks.len() == 0 {
        (fs, d)
    } else {
        let (fs2, d2) = feed(r + chunks[0], chunks.drop_first());
        (fs + fs2, d2)
    }
}

/// The chunks joined into one text.
pub open spec fn concat(chunks: Seq<Seq<char>>) -> Seq<char>
    decreases chunks.len(),
{
    if chunks.len() == 0 {
        Seq::empty()
    } else {
        chunks[0] + concat(chunks.drop_first())
    }
}

proof fn lemma_blank_from_range(s: Seq<char>, i: int)
    ensures
        blank_from(s, i) matches Some(j) ==> i <= j && j + 1 < s.len(),
    decreases s.len() - i,
{
    if !(i < 0 || i + 1 >= s.len()) && !(s[i] == '\n' && s[i + 1] == '\n') {
        lemma_blank_from_range(s, i + 1);
    }
}

proof fn lemma_blank_from_append(b: Seq<char>, x: Seq<char>, i: int)
    ensures
        blank_from(b, i) is Some ==> blank_from(b + x, i) == blank_from(b, i),
    decreases b.len() - i,
{
    if !(i < 0 || i + 1 >= b.len()) {
        assert((b + x)[i] == b[i]);
        assert((b + x)[i + 1] == b[i + 1]);
        if !(b[i] == '\n' && b[i + 1] == '\n') {
            lemma_blank_from_append(b, x, i + 1);
        }
    }
}

/// What extraction leaves is never longer than the buffer, and shorter when
/// it gives a frame or ends the stream.
proof fn lemma_extract_len(b: Seq<char>)
    ensures
        extract(b).0.len() <= b.len(),
        (extract(b).1 is Some || extract(b).2) ==> extract(b).0.len() < b.len(),
    decreases b.len(),
{
    lemma_blank_from_range(b, 0);
    match blank_from(b, 0) {
        None => {},
        Some(i) => {
            let rest = b.skip(i + 2);
            lemma_extract_len(rest);
        },
    }
}

/// Appending text to the buffer does not change what extraction finds in the
/// complete blocks already there.
proof fn lemma_extract_append(b: Seq<char>, x: Seq<char>)
    ensures
        (extract(b).1 is Some || extract(b).2) ==> extract(b + x) == (extract(b).0 + x, extract(b).1, extract(b).2),
        (extract(b).1 is None && !extract(b).2) ==> extract(b + x) == extract(extract(b).0 + x),
    decreases b.len(),
{
    lemma_blank_from_range(b, 0);
    lemma_blank_from_append(b, x, 0);
    match blank_from(b, 0) {
        None => {},
        Some(i) => {
            let rest = b.skip(i + 2);
            let bx = b + x;
            lemma_blank_from_range(bx, 0);
            assert(bx.take(i) =~= b.take(i));
            assert(bx.skip(i + 2) =~= rest + x);
            lemma_extract_append(rest, x);
        },
    }
}

/// Appending text to the buffer: the frames already complete come first,
/// then what the rest of the buffer with the new text gives.
proof fn lemma_drain_append(b: Seq<char>, x: Seq<char>)
    ensures
        drain(b).2 ==> drain(b + x) == (drain(b).0, drain(b).1 + x, true),
        !drain(b).2 ==> drain(b + x) == (
            drain(b).0 + drain(drain(b).1 + x).0,
            drain(drain(b).1 + x).1,
            drain(drain(b).1 + x).2,
        ),
    decreases b.len(),
{
    let (r1, f, d1) = extract(b);
    lemma_extract_append(b, x);
    lemma_extract_len(b);
    lemma_extract_len(b + x);
    match f {
        None => {
            if !d1 {
                lemma_extract_len(r1 + x);
                assert(drain(b + x) == drain(r1 + x));
                assert(Seq::<FrameV>::empty() + drain(r1 + x).0 =~= drain(r1 + x).0);
            }
        },
        Some(fr) => {
            if !d1 {
                lemma_drain_append(r1, x);
                let (fs1, r2, d2) = drain(r1);
                if !d2 {
                    assert(seq![fr] + (fs1 + drain(r2 + x).0) =~= seq![fr] + fs1 + drain(r2 + x).0);
                }
            }
        },
    }
}

proof fn lemma_feed_concat(b: Seq<char>, chunks: Seq<Seq<char>>)
    ensures
        feed(b, chunks) == (drain(b + concat(chunks)).0, drain(b + concat(chunks)).2),
    decreases chunks.len(),
{
    let x = concat(chunks);
    lemma_drain_append(b, x);
    if chunks.len() == 0 {
        assert(b + x =~= b);
    } else {
        let (fs, r, d) = drain(b);
        if !d {
            lemma_feed_concat(r + chunks[0], chunks.drop_first());
            assert(r + chunks[0] + concat(chunks.drop_first()) =~= r + x);
        }
    }
}

/// How the stream is cut into chunks does not matter: two chunkings of the
/// same text give the client the same frames, in the same order, and end
/// the stream alike.
pub proof fn law_sse_chunking(c1: Seq<Seq<char>>, c2: Seq<Seq<char>>)
    requires
        concat(c1) == concat(c2),
    ensures
        feed(Seq::empty(), c1) == feed(Seq::empty(), c2),
{
    lemma_feed_concat(Seq::empty(), c1);
    lemma_feed_concat(Seq::empty(), c2);
}

} // verus!
