//! The gRPC-Web terminal frame: a trailer block carried in band.
//!
//! The frame is one marker byte `0x80`, the length of the body as a
//! big-endian `u32`, and the body: one line `name: value\r\n` per trailer,
//! the name in lower case and the value as it is.

use crate::headers::{all_fields, fields_view, header_fields, Field};
use crate::text::append_bytes;
use vstd::prelude::*;

verus! {

/// The marker byte that opens a terminal frame.
pub const TRAILER_MARKER: u8 = 0x80;

/// The largest body that the length field of a frame can announce.
pub const MAX_BODY_LEN: usize = 0xFFFF_FFFF;

/// A byte in lower case: an ASCII capital becomes its small letter.
pub open spec fn lower(b: u8) -> u8 {
    if 65 <= b && b <= 90 {
        (b + 32) as u8
    } else {
        b
    }
}

/// A name in lower case.
pub open spec fn lower_name(name: Seq<u8>) -> Seq<u8> {
    name.map_values(|b: u8| lower(b))
}

/// One line of a frame body.
pub open spec fn line(name: Seq<u8>, value: Seq<u8>) -> Seq<u8> {
    lower_name(name) + seq![58u8, 32u8] + value + seq![13u8, 10u8]
}

/// The body of the frame for a trailer block: its lines, in order.
pub open spec fn body(lines: Seq<(Seq<u8>, Seq<u8>)>) -> Seq<u8>
    decreases lines.len(),
{
    if lines.len() == 0 {
        Seq::empty()
    } else {
        line(lines[0].0, lines[0].1) + body(lines.drop_first())
    }
}

/// A length as four bytes, the most significant first.
pub open spec fn be32(n: int) -> Seq<u8> {
    seq![
        ((n / 0x100_0000) % 0x100) as u8,
        ((n / 0x1_0000) % 0x100) as u8,
        ((n / 0x100) % 0x100) as u8,
        (n % 0x100) as u8,
    ]
}

/// The number that four bytes spell, the most significant first.
pub open spec fn be32_value(b: Seq<u8>) -> int {
    b[0] * 0x100_0000 + b[1] * 0x1_0000 + b[2] * 0x100 + b[3]
}

/// The terminal frame of a trailer block.
pub open spec fn terminal_frame(lines: Seq<(Seq<u8>, Seq<u8>)>) -> Seq<u8> {
    seq![TRAILER_MARKER] + be32(body(lines).len() as int) + body(lines)
}

/// A trailer block has a frame when its body fits the length field.
pub open spec fn is_encodable(lines: Seq<(Seq<u8>, Seq<u8>)>) -> bool {
    body(lines).len() <= MAX_BODY_LEN
}

/// The bytes `a`, `b` stand at `i` and `i + 1`.
pub open spec fn pair_at(s: Seq<u8>, i: int, a: u8, b: u8) -> bool {
    0 <= i && i + 1 < s.len() && s[i] == a && s[i + 1] == b
}

/// The first place at or after `from` where the bytes `a`, `b` follow each
/// other, or `-1` if there is none.
pub open spec fn find_pair(s: Seq<u8>, a: u8, b: u8, from: int) -> int
    decreases s.len() - from,
{
    if from < 0 || from + 1 >= s.len() {
        -1
    } else if s[from] == a && s[from + 1] == b {
        from
    } else {
        find_pair(s, a, b, from + 1)
    }
}

/// The lines that a frame body spells, or `None` where it is not a sequence
/// of whole lines. A name ends before the first colon and space, a value
/// before the first carriage return and line feed after them.
pub open spec fn parse_lines(s: Seq<u8>) -> Option<Seq<(Seq<u8>, Seq<u8>)>>
    decreases s.len(),
{
    if s.len() == 0 {
        Some(Seq::empty())
    } else {
        let c = find_pair(s, 58, 32, 0);
        let e = find_pair(s, 13, 10, c + 2);
        if c < 0 || e < 0 || e + 2 > s.len() {
            None
        } else {
            match parse_lines(s.subrange(e + 2, s.len() as int)) {
                None => None,
                Some(rest) => Some(seq![(s.subrange(0, c), s.subrange(c + 2, e))] + rest),
            }
        }
    }
}

/// The trailer block that a terminal frame carries, or `None` where the
/// bytes are no terminal frame.
pub open spec fn decoded(frame: Seq<u8>) -> Option<Seq<(Seq<u8>, Seq<u8>)>> {
    if frame.len() < 5 || frame[0] != TRAILER_MARKER {
        None
    } else if be32_value(frame.subrange(1, 5)) != frame.len() - 5 {
        None
    } else {
        parse_lines(frame.subrange(5, frame.len() as int))
    }
}

/// A trailer block with its names in lower case.
pub open spec fn lowered(lines: Seq<(Seq<u8>, Seq<u8>)>) -> Seq<(Seq<u8>, Seq<u8>)> {
    lines.map_values(|l: (Seq<u8>, Seq<u8>)| (lower_name(l.0), l.1))
}

/// No name holds a colon followed by a space, and no value a carriage
/// return followed by a line feed.
pub open spec fn is_framable(lines: Seq<(Seq<u8>, Seq<u8>)>) -> bool {
    &&& forall|k: int, i: int|
        0 <= k < lines.len() ==> !#[trigger] pair_at(lines[k].0, i, 58, 32)
    &&& forall|k: int, i: int|
        0 <= k < lines.len() ==> !#[trigger] pair_at(lines[k].1, i, 13, 10)
}

/// The body of a block grows by one line when the block does.
pub proof fn lemma_body_push(lines: Seq<(Seq<u8>, Seq<u8>)>, last: (Seq<u8>, Seq<u8>))
    ensures
        body(lines.push(last)) == body(lines) + line(last.0, last.1),
    decreases lines.len(),
{
    let longer = lines.push(last);
    if lines.len() == 0 {
        assert(longer.drop_first() =~= Seq::empty());
        assert(body(longer.drop_first()) =~= Seq::empty());
        assert(body(longer) =~= line(last.0, last.1));
        assert(body(lines) + line(last.0, last.1) =~= line(last.0, last.1));
    } else {
        assert(longer.drop_first() =~= lines.drop_first().push(last));
        lemma_body_push(lines.drop_first(), last);
        assert(longer[0] == lines[0]);
        assert(body(longer) =~= body(lines) + line(last.0, last.1));
    }
}

fn lower_byte(b: u8) -> (l: u8)
    ensures
        l == lower(b),
{
    if 65 <= b && b <= 90 {
        b + 32
    } else {
        b
    }
}

/// Appends to `out` the line of one trailer.
fn push_line(out: &mut Vec<u8>, field: &Field)
    ensures
        final(out)@ == old(out)@ + line(field.name@, field.value@),
{
    let ghost start = out@;
    let mut i: usize = 0;
    while i < field.name.len()
        invariant
            i <= field.name.len(),
            out@ == start + lower_name(field.name@).subrange(0, i as int),
        decreases field.name.len() - i,
    {
        out.push(lower_byte(field.name[i]));
        i += 1;
        assert(out@ =~= start + lower_name(field.name@).subrange(0, i as int));
    }
    assert(lower_name(field.name@).subrange(0, i as int) =~= lower_name(field.name@));
    out.push(58);
    out.push(32);
    append_bytes(out, field.value.as_slice());
    out.push(13);
    out.push(10);
    assert(out@ =~= start + line(field.name@, field.value@));
}

/// The terminal frame of a trailer block, or `None` where the body is
/// longer than the length field can announce.
pub fn encode(lines: &Vec<Field>) -> (frame: Option<Vec<u8>>)
    ensures
        frame.is_some() == is_encodable(fields_view(lines@)),
        frame matches Some(bytes) ==> bytes@ == terminal_frame(fields_view(lines@)),
{
    let ghost all = fields_view(lines@);
    let mut text: Vec<u8> = Vec::new();
    let mut k: usize = 0;
    assert(all.take(0) =~= Seq::empty());
    while k < lines.len()
        invariant
            k <= lines.len(),
            all == fields_view(lines@),
            text@ == body(all.take(k as int)),
        decreases lines.len() - k,
    {
        push_line(&mut text, &lines[k]);
        proof {
            lemma_body_push(all.take(k as int), all[k as int]);
            assert(all.take(k as int).push(all[k as int]) =~= all.take(k + 1));
        }
        k += 1;
    }
    assert(all.take(k as int) =~= all);
    let n: usize = text.len();
    if n > MAX_BODY_LEN {
        return None;
    }
    let mut out: Vec<u8> = Vec::new();
    out.push(TRAILER_MARKER);
    out.push(((n / 0x100_0000) % 0x100) as u8);
    out.push(((n / 0x1_0000) % 0x100) as u8);
    out.push(((n / 0x100) % 0x100) as u8);
    out.push((n % 0x100) as u8);
    assert(out@ =~= seq![TRAILER_MARKER] + be32(n as int));
    append_bytes(&mut out, text.as_slice());
    Some(out)
}

/// What `find_pair` finds is the first such place at or after `from`.
pub proof fn lemma_find_pair(s: Seq<u8>, a: u8, b: u8, from: int)
    requires
        0 <= from,
    ensures
        find_pair(s, a, b, from) == -1 || (from <= find_pair(s, a, b, from) && pair_at(
            s,
            find_pair(s, a, b, from),
            a,
            b,
        )),
        forall|j: int|
            from <= j && (j < find_pair(s, a, b, from) || find_pair(s, a, b, from) == -1)
                ==> !pair_at(s, j, a, b),
    decreases s.len() - from,
{
    if from + 1 >= s.len() {
    } else if s[from] == a && s[from + 1] == b {
    } else {
        lemma_find_pair(s, a, b, from + 1);
    }
}

/// The first place at or after `from` where the bytes `a`, `b` follow each
/// other.
fn find(s: &[u8], a: u8, b: u8, from: usize) -> (at: Option<usize>)
    ensures
        at matches Some(i) ==> find_pair(s@, a, b, from as int) == i,
        at.is_none() ==> find_pair(s@, a, b, from as int) == -1,
{
    let mut i: usize = from;
    while i < s.len() && s.len() - i >= 2
        invariant
            from <= i,
            find_pair(s@, a, b, from as int) == find_pair(s@, a, b, i as int),
        decreases s.len() - i,
    {
        if s[i] == a && s[i + 1] == b {
            return Some(i);
        }
        i += 1;
    }
    None
}

fn copy_range(s: &[u8], from: usize, to: usize) -> (out: Vec<u8>)
    requires
        from <= to <= s.len(),
    ensures
        out@ == s@.subrange(from as int, to as int),
{
    let mut out: Vec<u8> = Vec::new();
    let mut i: usize = from;
    while i < to
        invariant
            from <= i <= to <= s.len(),
            out@ == s@.subrange(from as int, i as int),
        decreases to - i,
    {
        out.push(s[i]);
        i += 1;
        assert(out@ =~= s@.subrange(from as int, i as int));
    }
    out
}

/// The trailer block that a terminal frame carries, or `None` where the
/// bytes are no terminal frame.
pub fn decode(frame: &[u8]) -> (lines: Option<Vec<Field>>)
    ensures
        lines.is_some() == decoded(frame@).is_some(),
        lines matches Some(l) ==> fields_view(l@) == decoded(frame@).unwrap(),
{
    if frame.len() < 5 || frame[0] != TRAILER_MARKER {
        return None;
    }
    let announced: u64 = (frame[1] as u64) * 0x100_0000 + (frame[2] as u64) * 0x1_0000
        + (frame[3] as u64) * 0x100 + (frame[4] as u64);
    if announced != (frame.len() - 5) as u64 {
        return None;
    }
    let ghost text = frame@.subrange(5, frame.len() as int);
    let mut out: Vec<Field> = Vec::new();
    let mut pos: usize = 5;
    assert(frame@.subrange(pos as int, frame.len() as int) =~= text);
    assert(fields_view(out@) =~= Seq::empty());
    while pos < frame.len()
        invariant
            5 <= pos <= frame.len(),
            text == frame@.subrange(5, frame.len() as int),
            parse_lines(text) == match parse_lines(
                frame@.subrange(pos as int, frame.len() as int),
            ) {
                None => None::<Seq<(Seq<u8>, Seq<u8>)>>,
                Some(rest) => Some(fields_view(out@) + rest),
            },
        decreases frame.len() - pos,
    {
        let ghost rest = frame@.subrange(pos as int, frame.len() as int);
        let colon = find(frame, 58, 32, pos);
        proof {
            lemma_find_shift(frame@, 58, 32, pos as int, pos as int);
        }
        let c = match colon {
            None => { return None; },
            Some(c) => c,
        };
        proof {
            lemma_find_pair(frame@, 58, 32, pos as int);
        }
        let end = find(frame, 13, 10, c + 2);
        proof {
            lemma_find_shift(frame@, 13, 10, pos as int, (c + 2) as int);
        }
        let e = match end {
            None => { return None; },
            Some(e) => e,
        };
        proof {
            lemma_find_pair(frame@, 13, 10, (c + 2) as int);
        }
        let name = copy_range(frame, pos, c);
        let value = copy_range(frame, c + 2, e);
        proof {
            assert(rest.subrange(0, c - pos) =~= name@);
            assert(rest.subrange(c - pos + 2, e - pos) =~= value@);
            assert(rest.subrange(e - pos + 2, rest.len() as int) =~= frame@.subrange(
                e + 2,
                frame.len() as int,
            ));
            let ghost before = fields_view(out@);
            assert(fields_view(out@.push(Field { name, value })) =~= before.push(
                (name@, value@),
            ));
            assert forall|tail: Seq<(Seq<u8>, Seq<u8>)>|
                before + (seq![(name@, value@)] + tail) == #[trigger] (before.push(
                    (name@, value@),
                ) + tail) by {
                assert(before + (seq![(name@, value@)] + tail) =~= before.push((name@, value@))
                    + tail);
            }
        }
        out.push(Field { name, value });
        pos = e + 2;
    }
    proof {
        assert(frame@.subrange(pos as int, frame.len() as int) =~= Seq::empty());
        assert(fields_view(out@) + Seq::empty() =~= fields_view(out@));
    }
    Some(out)
}

/// Searching a suffix finds the same place as searching the whole from the
/// suffix's start.
pub proof fn lemma_find_shift(s: Seq<u8>, a: u8, b: u8, start: int, from: int)
    requires
        0 <= start <= from,
        start <= s.len(),
    ensures
        find_pair(s.subrange(start, s.len() as int), a, b, from - start) == if find_pair(
            s,
            a,
            b,
            from,
        ) == -1 {
            -1
        } else {
            find_pair(s, a, b, from) - start
        },
    decreases s.len() - from,
{
    let t = s.subrange(start, s.len() as int);
    if from + 1 >= s.len() {
    } else {
        assert(t[from - start] == s[from]);
        assert(t[from - start + 1] == s[from + 1]);
        if s[from] == a && s[from + 1] == b {
        } else {
            lemma_find_shift(s, a, b, start, from + 1);
        }
    }
}

/// A place where the bytes `a`, `b` stand, with none between `from` and it,
/// is the place that `find_pair` finds.
pub proof fn lemma_find_is_first(s: Seq<u8>, a: u8, b: u8, from: int, at: int)
    requires
        0 <= from <= at,
        pair_at(s, at, a, b),
        forall|j: int| from <= j < at ==> !pair_at(s, j, a, b),
    ensures
        find_pair(s, a, b, from) == at,
{
    lemma_find_pair(s, a, b, from);
}

/// A body made of framable lines spells those lines, names in lower case.
pub proof fn lemma_parse_body(lines: Seq<(Seq<u8>, Seq<u8>)>)
    requires
        is_framable(lines),
    ensures
        parse_lines(body(lines)) == Some(lowered(lines)),
    decreases lines.len(),
{
    if lines.len() == 0 {
        assert(lowered(lines) =~= Seq::empty());
    } else {
        let name = lower_name(lines[0].0);
        let value = lines[0].1;
        let rest = lines.drop_first();
        let s = body(lines);
        let a = name.len() as int;
        let b = value.len() as int;
        assert(s =~= name + seq![58u8, 32u8] + value + seq![13u8, 10u8] + body(rest));
        assert forall|j: int| 0 <= j < a implies !pair_at(s, j, 58, 32) by {
            if j + 1 < a {
                assert(s[j] == name[j] && s[j + 1] == name[j + 1]);
                assert(!pair_at(lines[0].0, j, 58, 32));
            } else {
                assert(s[j + 1] == 58);
            }
        }
        assert(s[a] == 58 && s[a + 1] == 32);
        lemma_find_is_first(s, 58, 32, 0, a);
        assert forall|j: int| a + 2 <= j < a + 2 + b implies !pair_at(s, j, 13, 10) by {
            if j + 1 < a + 2 + b {
                assert(s[j] == value[j - a - 2] && s[j + 1] == value[j - a - 1]);
                assert(!pair_at(lines[0].1, j - a - 2, 13, 10));
            } else {
                assert(s[j + 1] == 13);
            }
        }
        assert(s[a + 2 + b] == 13 && s[a + 3 + b] == 10);
        lemma_find_is_first(s, 13, 10, a + 2, a + 2 + b);
        assert(s.subrange(a + b + 4, s.len() as int) =~= body(rest));
        assert(s.subrange(0, a) =~= name);
        assert(s.subrange(a + 2, a + 2 + b) =~= value);
        assert forall|k: int, i: int| 0 <= k < rest.len() implies !#[trigger] pair_at(
            rest[k].0,
            i,
            58,
            32,
        ) by {
            assert(rest[k] == lines[k + 1]);
        }
        assert forall|k: int, i: int| 0 <= k < rest.len() implies !#[trigger] pair_at(
            rest[k].1,
            i,
            13,
            10,
        ) by {
            assert(rest[k] == lines[k + 1]);
        }
        lemma_parse_body(rest);
        assert(lowered(lines) =~= seq![(name, value)] + lowered(rest));
    }
}

/// Four bytes that spell a length spell it back.
pub proof fn lemma_be32_value(n: int)
    requires
        0 <= n <= MAX_BODY_LEN,
    ensures
        be32(n).len() == 4,
        be32_value(be32(n)) == n,
{
}

/// Decoding the terminal frame of a trailer block gives the block back: the
/// same trailers in the same order, each name in lower case and each value
/// byte for byte. This holds of every block whose body fits the length
/// field, whose names hold no colon followed by a space and whose values
/// hold no carriage return followed by a line feed.
pub proof fn lemma_frame_round_trip(lines: Seq<(Seq<u8>, Seq<u8>)>)
    requires
        is_encodable(lines),
        is_framable(lines),
    ensures
        decoded(terminal_frame(lines)) == Some(lowered(lines)),
{
    let frame = terminal_frame(lines);
    let n = body(lines).len() as int;
    lemma_be32_value(n);
    assert(frame.len() == 5 + n);
    assert(frame[0] == TRAILER_MARKER);
    assert(frame.subrange(1, 5) =~= be32(n));
    assert(frame.subrange(5, frame.len() as int) =~= body(lines));
    lemma_parse_body(lines);
}

/// A body that spells its block back, names in lower case, is made of
/// framable lines: on every other block the round trip fails.
pub proof fn lemma_parse_needs_framable(lines: Seq<(Seq<u8>, Seq<u8>)>)
    requires
        parse_lines(body(lines)) == Some(lowered(lines)),
    ensures
        is_framable(lines),
    decreases lines.len(),
{
    if lines.len() > 0 {
        let name = lower_name(lines[0].0);
        let value = lines[0].1;
        let rest = lines.drop_first();
        let s = body(lines);
        let a = name.len() as int;
        let b = value.len() as int;
        assert(s =~= name + seq![58u8, 32u8] + value + seq![13u8, 10u8] + body(rest));
        let c = find_pair(s, 58, 32, 0);
        let e = find_pair(s, 13, 10, c + 2);
        let tail = parse_lines(s.subrange(e + 2, s.len() as int));
        assert(c >= 0 && e >= 0 && e + 2 <= s.len() && tail.is_some());
        let read = seq![(s.subrange(0, c), s.subrange(c + 2, e))] + tail.unwrap();
        assert(read == lowered(lines));
        lemma_find_pair(s, 58, 32, 0);
        lemma_find_pair(s, 13, 10, c + 2);
        assert(read[0] == lowered(lines)[0]);
        assert(s.subrange(0, c).len() == a);
        assert(s.subrange(c + 2, e).len() == b);
        assert(c == a && e == a + 2 + b);
        assert(tail.unwrap() =~= read.drop_first());
        assert(lowered(lines).drop_first() =~= lowered(rest));
        assert(s.subrange(e + 2, s.len() as int) =~= body(rest));
        lemma_parse_needs_framable(rest);
        assert forall|k: int, i: int| 0 <= k < lines.len() implies !#[trigger] pair_at(
            lines[k].0,
            i,
            58,
            32,
        ) by {
            if k == 0 {
                if pair_at(lines[0].0, i, 58, 32) {
                    assert(s[i] == name[i] && s[i + 1] == name[i + 1]);
                    assert(pair_at(s, i, 58, 32));
                }
            } else {
                assert(lines[k] == rest[k - 1]);
            }
        }
        assert forall|k: int, i: int| 0 <= k < lines.len() implies !#[trigger] pair_at(
            lines[k].1,
            i,
            13,
            10,
        ) by {
            if k == 0 {
                if pair_at(value, i, 13, 10) {
                    assert(s[a + 2 + i] == value[i] && s[a + 3 + i] == value[i + 1]);
                    assert(pair_at(s, a + 2 + i, 13, 10));
                }
            } else {
                assert(lines[k] == rest[k - 1]);
            }
        }
    }
}

/// The round trip of a block that has a frame succeeds on the framable
/// blocks and on no others.
pub proof fn lemma_round_trip_iff_framable(lines: Seq<(Seq<u8>, Seq<u8>)>)
    requires
        is_encodable(lines),
    ensures
        decoded(terminal_frame(lines)) == Some(lowered(lines)) <==> is_framable(lines),
{
    let frame = terminal_frame(lines);
    let n = body(lines).len() as int;
    lemma_be32_value(n);
    assert(frame.subrange(1, 5) =~= be32(n));
    assert(frame.subrange(5, frame.len() as int) =~= body(lines));
    if is_framable(lines) {
        lemma_frame_round_trip(lines);
    }
    if decoded(frame) == Some(lowered(lines)) {
        lemma_parse_needs_framable(lines);
    }
}

/// The trailers that end an answer, on their way into a terminal frame.
pub struct Trailers {
    block: http::HeaderMap<http::HeaderValue>,
}

impl View for Trailers {
    type V = Seq<(Seq<u8>, Seq<u8>)>;

    closed spec fn view(&self) -> Seq<(Seq<u8>, Seq<u8>)> {
        header_fields(self.block)
    }
}

impl Trailers {
    /// Takes a trailer block as the upstream sent it.
    pub fn new(block: http::HeaderMap<http::HeaderValue>) -> (trailers: Trailers)
        ensures
            trailers@ == header_fields(block),
    {
        Trailers { block }
    }

    /// The terminal frame of the trailers, or `None` where their body is
    /// longer than the length field can announce.
    pub fn into_to_frame(self) -> (frame: Option<Vec<u8>>)
        ensures
            frame.is_some() == is_encodable(self@),
            frame matches Some(bytes) ==> bytes@ == terminal_frame(self@),
    {
        let lines = all_fields(&self.block);
        encode(&lines)
    }
}

} // verus!
