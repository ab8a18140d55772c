//! Parsing what `ffprobe` prints about the first video stream of a file:
//! `key=value` lines giving its width, height and frame rate.
use vstd::prelude::*;
use vstd::utf8::{valid_utf8, decode_utf8};
use crate::text::{chars_of, push_char};

verus! {

// ---------------------------------------------------------------------------
// Lines
/// Index of the first `c` in `s`, or `s.len()` when there is none.
pub open spec fn first_index_of(s: Seq<char>, c: char) -> int
    decreases s.len(),
{
    if s.len() == 0 {
        0
    } else if s[0] == c {
        0
    } else {
        1 + first_index_of(s.drop_first(), c)
    }
}

pub proof fn lemma_first_index_of_bounds(s: Seq<char>, c: char)
    ensures
        0 <= first_index_of(s, c) <= s.len(),
        first_index_of(s, c) < s.len() ==> s[first_index_of(s, c)] == c,
        forall|j: int| 0 <= j < first_index_of(s, c) ==> s[j] != c,
    decreases s.len(),
{
    if s.len() > 0 && s[0] != c {
        lemma_first_index_of_bounds(s.drop_first(), c);
        assert forall|j: int| 0 <= j < first_index_of(s, c) implies s[j] != c by {
            if j > 0 {
                assert(s[j] == s.drop_first()[j - 1]);
            }
        }
    }
}

/// The index found by a scan: no `c` before `k`, and `c` at `k` unless `k`
/// is the end.
pub proof fn lemma_first_index_of_scan(s: Seq<char>, c: char, k: int)
    requires
        0 <= k <= s.len(),
        forall|j: int| 0 <= j < k ==> s[j] != c,
        k < s.len() ==> s[k] == c,
    ensures
        first_index_of(s, c) == k,
    decreases s.len(),
{
    if s.len() > 0 && k > 0 {
        assert forall|j: int| 0 <= j < k - 1 implies s.drop_first()[j] != c by {
            assert(s.drop_first()[j] == s[j + 1]);
        }
        lemma_first_index_of_scan(s.drop_first(), c, k - 1);
    }
}

/// A line with a trailing carriage return removed.
pub open spec fn strip_cr(t: Seq<char>) -> Seq<char> {
    if t.len() > 0 && t.last() == '\r' {
        t.drop_last()
    } else {
        t
    }
}

/// The lines of a text as `str::lines` yields them: split at `\n`, with a
/// `\r` before the `\n` dropped; a final line ending is optional, and a text
/// that ends with one has no empty last line.
pub open spec fn lines(s: Seq<char>) -> Seq<Seq<char>>
    decreases s.len(),
{
    if s.len() == 0 {
        Seq::empty()
    } else {
        let e = first_index_of(s, '\n');
        proof {
            lemma_first_index_of_bounds(s, '\n');
        }
        if e < s.len() {
            seq![strip_cr(s.take(e))] + lines(s.skip(e + 1))
        } else {
            seq![s]
        }
    }
}

// ---------------------------------------------------------------------------
// Unsigned integers
pub open spec fn is_digit(c: char) -> bool {
    '0' <= c && c <= '9'
}

pub open spec fn digit_value(c: char) -> int {
    (c as int) - ('0' as int)
}

pub open spec fn all_digits(d: Seq<char>) -> bool {
    forall|i: int| 0 <= i < d.len() ==> #[trigger] is_digit(d[i])
}

/// The number written by decimal digits `d`.
pub open spec fn decimal(d: Seq<char>) -> int
    decreases d.len(),
{
    if d.len() == 0 {
        0
    } else {
        decimal(d.drop_last()) * 10 + digit_value(d.last())
    }
}

/// The digits of an unsigned number, after an optional `+`.
pub open spec fn unsigned_digits(v: Seq<char>) -> Seq<char> {
    if v.len() > 0 && v[0] == '+' {
        v.drop_first()
    } else {
        v
    }
}

/// `u32::from_str` of `v`, as an option: an optional `+`, then at least one
/// decimal digit and nothing else, with a value that fits in `u32`.
pub open spec fn parse_u32(v: Seq<char>) -> Option<u32> {
    let d = unsigned_digits(v);
    if d.len() > 0 && all_digits(d) && decimal(d) <= u32::MAX {
        Some(decimal(d) as u32)
    } else {
        None
    }
}

proof fn lemma_decimal_nonneg(d: Seq<char>)
    requires
        all_digits(d),
    ensures
        decimal(d) >= 0,
    decreases d.len(),
{
    if d.len() > 0 {
        assert(is_digit(d[d.len() - 1]));
        assert(all_digits(d.drop_last())) by {
            assert forall|i: int| 0 <= i < d.drop_last().len() implies #[trigger] is_digit(
                d.drop_last()[i],
            ) by {
                assert(is_digit(d[i]));
            }
        }
        lemma_decimal_nonneg(d.drop_last());
    }
}

/// A prefix of a digit string never has a larger value.
proof fn lemma_decimal_prefix(d: Seq<char>, k: int)
    requires
        all_digits(d),
        0 <= k <= d.len(),
    ensures
        decimal(d.take(k)) <= decimal(d),
    decreases d.len(),
{
    if k < d.len() {
        let p = d.drop_last();
        assert(all_digits(p)) by {
            assert forall|i: int| 0 <= i < p.len() implies #[trigger] is_digit(p[i]) by {
                assert(is_digit(d[i]));
            }
        }
        lemma_decimal_prefix(p, k);
        assert(p.take(k) =~= d.take(k));
        lemma_decimal_nonneg(p);
        assert(is_digit(d[d.len() - 1]));
    } else {
        assert(d.take(k) =~= d);
    }
}

fn parse_u32_span(cs: &Vec<char>, from: usize, to: usize) -> (r: Option<u32>)
    requires
        from <= to <= cs@.len(),
    ensures
        r == parse_u32(cs@.subrange(from as int, to as int)),
{
    let ghost v = cs@.subrange(from as int, to as int);
    let mut start = from;
    if start < to && cs[start] == '+' {
        start = start + 1;
    }
    let ghost d = cs@.subrange(start as int, to as int);
    assert(d =~= unsigned_digits(v));
    if start == to {
        return None;
    }
    let mut acc: u64 = 0;
    let mut i = start;
    while i < to
        invariant
            start <= i <= to <= cs@.len(),
            d == cs@.subrange(start as int, to as int),
            d == unsigned_digits(v),
            v == cs@.subrange(from as int, to as int),
            d.len() > 0,
            all_digits(d.take(i - start)),
            acc == decimal(d.take(i - start)),
            acc <= u32::MAX,
        decreases to - i,
    {
        let c = cs[i];
        if !('0' <= c && c <= '9') {
            assert(!is_digit(d[i - start]));
            assert(!all_digits(d));
            assert(parse_u32(v) is None);
            return None;
        }
        let dv = (c as u32 - '0' as u32) as u64;
        assert(d.take(i + 1 - start).drop_last() =~= d.take(i - start));
        acc = acc * 10 + dv;
        assert(all_digits(d.take(i + 1 - start))) by {
            assert forall|j: int| 0 <= j < i + 1 - start implies #[trigger] is_digit(
                d.take(i + 1 - start)[j],
            ) by {
                if j < i - start {
                    assert(d.take(i + 1 - start)[j] == d.take(i - start)[j]);
                }
            }
        }
        if acc > 0xffff_ffff {
            proof {
                if all_digits(d) {
                    lemma_decimal_prefix(d, i + 1 - start);
                    assert(decimal(d) > u32::MAX);
                }
                assert(parse_u32(v) is None);
            }
            return None;
        }
        i = i + 1;
    }
    assert(d.take(to - start) =~= d);
    Some(acc as u32)
}

// ---------------------------------------------------------------------------
// Fields
/// Width, height and frame rate as read so far.
pub struct ProbeFields {
    pub width: Option<u32>,
    pub height: Option<u32>,
    pub frame_rate: Option<Seq<char>>,
}

pub open spec fn no_fields() -> ProbeFields {
    ProbeFields { width: None, height: None, frame_rate: None }
}

/// One line's effect: a `key=value` line (split at the first `=`) sets the
/// width or height to its parsed value (or to nothing, when it does not
/// parse), or sets the frame rate to the value text; other lines change
/// nothing.
pub open spec fn probe_line(f: ProbeFields, line: Seq<char>) -> ProbeFields {
    let e = first_index_of(line, '=');
    if e < line.len() {
        let key = line.take(e);
        let value = line.skip(e + 1);
        if key == "width"@ {
            ProbeFields { width: parse_u32(value), ..f }
        } else if key == "height"@ {
            ProbeFields { height: parse_u32(value), ..f }
        } else if key == "r_frame_rate"@ {
            ProbeFields { frame_rate: Some(value), ..f }
        } else {
            f
        }
    } else {
        f
    }
}

/// The fields after reading the given lines in order.
pub open spec fn probe_fields(ls: Seq<Seq<char>>) -> ProbeFields
    decreases ls.len(),
{
    if ls.len() == 0 {
        no_fields()
    } else {
        probe_line(probe_fields(ls.drop_last()), ls.last())
    }
}

/// Why the output of `ffprobe` is refused.
#[derive(Debug, Clone, Copy, PartialEq, Eq, Structural)]
pub enum ProbeError {
    /// The output is not valid UTF-8.
    NotUtf8,
    /// No usable width was given.
    MissingWidth,
    /// No usable height was given.
    MissingHeight,
    /// No frame rate was given.
    MissingFrameRate,
}

/// What `ffprobe` says of a video stream.
pub struct VideoInfo {
    pub width: u32,
    pub height: u32,
    /// The frame rate as `ffprobe` wrote it (a fraction such as `30000/1001`).
    pub fps: String,
}

/// The result of reading a text: its fields, or the first missing one.
pub open spec fn probe_result(text: Seq<char>) -> Result<(u32, u32, Seq<char>), ProbeError> {
    let f = probe_fields(lines(text));
    match f.width {
        None => Err(ProbeError::MissingWidth),
        Some(w) => match f.height {
            None => Err(ProbeError::MissingHeight),
            Some(h) => match f.frame_rate {
                None => Err(ProbeError::MissingFrameRate),
                Some(r) => Ok((w, h, r)),
            },
        },
    }
}

/// The result of reading the raw bytes that `ffprobe` printed.
pub open spec fn probe_output_result(bytes: Seq<u8>) -> Result<(u32, u32, Seq<char>), ProbeError> {
    if valid_utf8(bytes) {
        probe_result(decode_utf8(bytes))
    } else {
        Err(ProbeError::NotUtf8)
    }
}

pub open spec fn info_view(r: Result<VideoInfo, ProbeError>) -> Result<(u32, u32, Seq<char>), ProbeError> {
    match r {
        Ok(i) => Ok((i.width, i.height, i.fps@)),
        Err(e) => Err(e),
    }
}

fn find_char(cs: &Vec<char>, from: usize, to: usize, c: char) -> (r: usize)
    requires
        from <= to <= cs@.len(),
    ensures
        from <= r <= to,
        r - from == first_index_of(cs@.subrange(from as int, to as int), c),
{
    let mut i = from;
    while i < to
        invariant
            from <= i <= to <= cs@.len(),
            forall|j: int| from <= j < i ==> cs@[j] != c,
        ensures
            from <= i <= to,
            forall|j: int| from <= j < i ==> cs@[j] != c,
            i < to ==> cs@[i as int] == c,
        decreases to - i,
    {
        if cs[i] == c {
            break;
        }
        i = i + 1;
    }
    proof {
        let sub = cs@.subrange(from as int, to as int);
        assert forall|j: int| 0 <= j < i - from implies sub[j] != c by {
            assert(sub[j] == cs@[from + j]);
        }
        lemma_first_index_of_scan(sub, c, i - from);
    }
    i
}

fn span_is(cs: &Vec<char>, from: usize, to: usize, word: &str) -> (r: bool)
    requires
        from <= to <= cs@.len(),
    ensures
        r == (cs@.subrange(from as int, to as int) == word@),
{
    let w = chars_of(word);
    if to - from != w.len() {
        return false;
    }
    let mut i: usize = 0;
    while i < w.len()
        invariant
            w@ == word@,
            from <= to <= cs@.len(),
            to - from == w@.len(),
            i <= w@.len(),
            forall|j: int| 0 <= j < i ==> cs@[from + j] == w@[j],
        decreases w@.len() - i,
    {
        if cs[from + i] != w[i] {
            assert(cs@.subrange(from as int, to as int)[i as int] != word@[i as int]);
            return false;
        }
        i = i + 1;
    }
    assert(cs@.subrange(from as int, to as int) =~= word@);
    true
}

fn string_of(cs: &Vec<char>, from: usize, to: usize) -> (r: String)
    requires
        from <= to <= cs@.len(),
    ensures
        r@ == cs@.subrange(from as int, to as int),
{
    let mut r = String::new();
    let mut i = from;
    while i < to
        invariant
            from <= i <= to <= cs@.len(),
            r@ == cs@.subrange(from as int, i as int),
        decreases to - i,
    {
        push_char(&mut r, cs[i]);
        assert(r@ =~= cs@.subrange(from as int, i + 1));
        i = i + 1;
    }
    r
}

/// The fields read so far are held as the width, the height and the span
/// of the frame rate text in `cs`.
pub open spec fn fields_held(
    width: Option<u32>,
    height: Option<u32>,
    rate: Option<(usize, usize)>,
    cs: Seq<char>,
    f: ProbeFields,
) -> bool {
    &&& width == f.width
    &&& height == f.height
    &&& match rate {
        None => f.frame_rate is None,
        Some((a, b)) => a <= b <= cs.len() && f.frame_rate == Some(cs.subrange(a as int, b as int)),
    }
}

/// The line that starts at `pos` ends at `e` (a `\n`, or the end of the
/// text) and holds the characters up to `le` (which drops a `\r` before the
/// `\n`): it is the first of the lines left, and the others start at `next`.
proof fn lemma_next_line(text: Seq<char>, pos: int, e: int, le: int, next: int)
    requires
        0 <= pos < e <= text.len() || (0 <= pos <= e < text.len()),
        e - pos == first_index_of(text.subrange(pos, text.len() as int), '\n'),
        le == if e < text.len() && e > pos && text[e - 1] == '\r' {
            e - 1
        } else {
            e
        },
        next == if e < text.len() {
            e + 1
        } else {
            text.len() as int
        },
    ensures
        lines(text.skip(pos)) == seq![text.subrange(pos, le)] + lines(text.skip(next)),
{
    let rest = text.skip(pos);
    let line = text.subrange(pos, le);
    assert(rest =~= text.subrange(pos, text.len() as int));
    assert(rest.len() > 0);
    if e < text.len() {
        assert(rest.take(e - pos) =~= text.subrange(pos, e));
        assert(rest.skip(e - pos + 1) =~= text.skip(next));
        assert(strip_cr(text.subrange(pos, e)) =~= line);
    } else {
        lemma_first_index_of_bounds(rest, '\n');
        assert(text.skip(next) =~= Seq::<char>::empty());
        assert(lines(text.skip(next)) =~= Seq::<Seq<char>>::empty());
        assert(rest =~= line);
    }
    assert(lines(rest) =~= seq![line] + lines(text.skip(next)));
}

/// Applies the line `cs[from..to]` to the fields held.
fn apply_line(
    cs: &Vec<char>,
    from: usize,
    to: usize,
    width: Option<u32>,
    height: Option<u32>,
    rate: Option<(usize, usize)>,
    Ghost(f): Ghost<ProbeFields>,
) -> (r: (Option<u32>, Option<u32>, Option<(usize, usize)>))
    requires
        from <= to <= cs@.len(),
        fields_held(width, height, rate, cs@, f),
    ensures
        fields_held(r.0, r.1, r.2, cs@, probe_line(f, cs@.subrange(from as int, to as int))),
{
    let ghost line = cs@.subrange(from as int, to as int);
    let eq = find_char(cs, from, to, '=');
    if eq < to {
        proof {
            assert(line.take(eq - from) =~= cs@.subrange(from as int, eq as int));
            assert(line.skip(eq - from + 1) =~= cs@.subrange(eq + 1, to as int));
        }
        if span_is(cs, from, eq, "width") {
            (parse_u32_span(cs, eq + 1, to), height, rate)
        } else if span_is(cs, from, eq, "height") {
            (width, parse_u32_span(cs, eq + 1, to), rate)
        } else if span_is(cs, from, eq, "r_frame_rate") {
            (width, height, Some((eq + 1, to)))
        } else {
            (width, height, rate)
        }
    } else {
        (width, height, rate)
    }
}

/// Reads the width, height and frame rate that `ffprobe` printed as text:
/// the lines are read in order, and a later line for a key overrides an
/// earlier one.
pub fn parse_probe_text(text: &str) -> (r: Result<VideoInfo, ProbeError>)
    ensures
        info_view(r) == probe_result(text@),
{
    let cs = chars_of(text);
    let n = cs.len();
    let mut width: Option<u32> = None;
    let mut height: Option<u32> = None;
    let mut rate: Option<(usize, usize)> = None;
    let mut pos: usize = 0;
    let ghost mut done: Seq<Seq<char>> = Seq::empty();
    assert(text@.skip(0) =~= text@);
    while pos < n
        invariant
            pos <= n,
            n == cs@.len(),
            cs@ == text@,
            lines(text@) == done + lines(text@.skip(pos as int)),
            fields_held(width, height, rate, cs@, probe_fields(done)),
        decreases n - pos,
    {
        let e = find_char(&cs, pos, n, '\n');
        let mut le = e;
        if e < n && e > pos && cs[e - 1] == '\r' {
            le = e - 1;
        }
        let next = if e < n {
            e + 1
        } else {
            n
        };
        let ghost line = cs@.subrange(pos as int, le as int);
        proof {
            lemma_next_line(cs@, pos as int, e as int, le as int, next as int);
            assert(done + (seq![line] + lines(text@.skip(next as int))) =~= done.push(line) + lines(
                text@.skip(next as int),
            ));
        }
        let (w, h, r) = apply_line(&cs, pos, le, width, height, rate, Ghost(probe_fields(done)));
        width = w;
        height = h;
        rate = r;
        proof {
            assert(done.push(line).drop_last() =~= done);
            done = done.push(line);
        }
        pos = next;
    }
    proof {
        assert(text@.skip(pos as int) =~= Seq::<char>::empty());
        assert(lines(text@.skip(pos as int)) =~= Seq::<Seq<char>>::empty());
        assert(lines(text@) =~= done);
    }
    let w = match width {
        Some(w) => w,
        None => return Err(ProbeError::MissingWidth),
    };
    let h = match height {
        Some(h) => h,
        None => return Err(ProbeError::MissingHeight),
    };
    match rate {
        Some((a, b)) => Ok(VideoInfo { width: w, height: h, fps: string_of(&cs, a, b) }),
        None => Err(ProbeError::MissingFrameRate),
    }
}

/// `String::from_utf8`, as an option. The contract states the std
/// documentation's promise in vstd's terms: the bytes are accepted exactly
/// when they are valid UTF-8, and then the string holds the decoded
/// characters.
#[verifier::external_body]
fn utf8_string(bytes: Vec<u8>) -> (r: Option<String>)
    ensures
        r is Some <==> valid_utf8(bytes@),
        r matches Some(s) ==> s@ == decode_utf8(bytes@),
{
    String::from_utf8(bytes).ok()
}

/// Reads what `ffprobe` printed on its standard output: the bytes must be
/// UTF-8 text giving the width, height and frame rate of the stream.
pub fn parse_probe_output(stdout: Vec<u8>) -> (r: Result<VideoInfo, ProbeError>)
    ensures
        info_view(r) == probe_output_result(stdout@),
{
    let ghost bytes = stdout@;
    match utf8_string(stdout) {
        Some(text) => parse_probe_text(text.as_str()),
        None => Err(ProbeError::NotUtf8),
    }
}

} // verus!
