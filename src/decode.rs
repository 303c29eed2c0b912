//! Payload framing: a payload is a run of bytes in which each zero byte ends a
//! line. Every segment is decoded as UTF-8 on its own; a segment that is not
//! well-formed is left out without disturbing the others.

use vstd::prelude::*;
use vstd::string::*;
use vstd::utf8::*;

verus! {

/// The byte that ends a line in a payload.
pub const SEPARATOR: u8 = 0;

/// The segments of a payload: the runs of bytes between separators, in order.
pub open spec fn segments(b: Seq<u8>) -> Seq<Seq<u8>>
    decreases b.len(),
{
    if b.len() == 0 {
        seq![Seq::<u8>::empty()]
    } else {
        let rest = segments(b.drop_first());
        if b[0] == SEPARATOR {
            seq![Seq::<u8>::empty()] + rest
        } else {
            rest.update(0, seq![b[0]] + rest[0])
        }
    }
}

/// The text of the final segment: its decoding, or nothing when it is not
/// well-formed UTF-8.
pub open spec fn segment_text(seg: Seq<u8>) -> Seq<char> {
    if valid_utf8(seg) {
        decode_utf8(seg)
    } else {
        Seq::empty()
    }
}

/// The text of a segment that a separator ends: its decoding and a newline,
/// or nothing at all when it is not well-formed UTF-8.
pub open spec fn line_text(seg: Seq<u8>) -> Seq<char> {
    if valid_utf8(seg) {
        decode_utf8(seg).push('\n')
    } else {
        Seq::empty()
    }
}

/// The text of a sequence of segments, all but the last ended by a separator.
pub open spec fn render(segs: Seq<Seq<u8>>) -> Seq<char>
    decreases segs.len(),
{
    if segs.len() == 0 {
        Seq::empty()
    } else if segs.len() == 1 {
        segment_text(segs[0])
    } else {
        line_text(segs[0]) + render(segs.drop_first())
    }
}

/// A payload that starts with a separator gets one newline more in front.
pub open spec fn leading_break(b: Seq<u8>) -> Seq<char> {
    if b.len() > 0 && b[0] == SEPARATOR {
        seq!['\n']
    } else {
        Seq::empty()
    }
}

/// The text that a payload decodes to.
pub open spec fn payload_text(b: Seq<u8>) -> Seq<char> {
    leading_break(b) + render(segments(b))
}

/// The 1-based numbers, counted from `first`, of the segments that are not
/// well-formed UTF-8.
pub open spec fn rejected_from(segs: Seq<Seq<u8>>, first: nat) -> Seq<nat>
    decreases segs.len(),
{
    if segs.len() == 0 {
        Seq::empty()
    } else {
        let here = if valid_utf8(segs[0]) {
            Seq::<nat>::empty()
        } else {
            seq![first]
        };
        here + rejected_from(segs.drop_first(), first + 1)
    }
}

/// The 1-based numbers of the segments of a payload that are left out.
pub open spec fn rejected_lines(b: Seq<u8>) -> Seq<nat> {
    rejected_from(segments(b), 1)
}

/// Every payload has at least one segment.
pub proof fn lemma_segments_nonempty(b: Seq<u8>)
    ensures
        segments(b).len() >= 1,
    decreases b.len(),
{
    if b.len() > 0 {
        lemma_segments_nonempty(b.drop_first());
    }
}

/// A payload whose first separator stands at `i` splits into the bytes before
/// it and the segments of what follows it.
proof fn lemma_segments_split(b: Seq<u8>, i: int)
    requires
        0 <= i < b.len(),
        b[i] == SEPARATOR,
        forall|j: int| 0 <= j < i ==> b[j] != SEPARATOR,
    ensures
        segments(b) == seq![b.subrange(0, i)] + segments(b.subrange(i + 1, b.len() as int)),
    decreases i,
{
    let t = b.drop_first();
    if i == 0 {
        assert(t =~= b.subrange(1, b.len() as int));
        assert(b.subrange(0, 0) =~= Seq::<u8>::empty());
    } else {
        lemma_segments_split(t, i - 1);
        assert(t.subrange(i, t.len() as int) =~= b.subrange(i + 1, b.len() as int));
        assert(seq![b[0]] + t.subrange(0, i - 1) =~= b.subrange(0, i));
        assert(segments(b) =~= seq![b.subrange(0, i)] + segments(
            b.subrange(i + 1, b.len() as int),
        ));
    }
}

/// A payload without a separator is a single segment.
proof fn lemma_segments_whole(b: Seq<u8>)
    requires
        forall|j: int| 0 <= j < b.len() ==> b[j] != SEPARATOR,
    ensures
        segments(b) == seq![b],
    decreases b.len(),
{
    if b.len() > 0 {
        let t = b.drop_first();
        lemma_segments_whole(t);
        assert(seq![b[0]] + t =~= b);
        assert(segments(b) =~= seq![b]);
    } else {
        assert(b =~= Seq::<u8>::empty());
    }
}

/// How many separators a payload holds.
pub open spec fn separator_count(b: Seq<u8>) -> nat
    decreases b.len(),
{
    if b.len() == 0 {
        0
    } else {
        (if b[0] == SEPARATOR {
            1nat
        } else {
            0nat
        }) + separator_count(b.drop_first())
    }
}

/// Lines joined by newlines, the last one without a newline after it.
pub open spec fn join_lines(lines: Seq<Seq<char>>) -> Seq<char>
    decreases lines.len(),
{
    if lines.len() == 0 {
        Seq::empty()
    } else if lines.len() == 1 {
        lines[0]
    } else {
        lines[0].push('\n') + join_lines(lines.drop_first())
    }
}

/// The decodings of segments that are all well-formed.
pub open spec fn decoded_all(segs: Seq<Seq<u8>>) -> Seq<Seq<char>> {
    segs.map_values(|seg: Seq<u8>| decode_utf8(seg))
}

proof fn lemma_segment_count(b: Seq<u8>)
    ensures
        segments(b).len() == separator_count(b) + 1,
    decreases b.len(),
{
    if b.len() > 0 {
        lemma_segment_count(b.drop_first());
        lemma_segments_nonempty(b.drop_first());
    }
}

proof fn lemma_render_valid(segs: Seq<Seq<u8>>)
    requires
        forall|i: int| 0 <= i < segs.len() ==> valid_utf8(#[trigger] segs[i]),
    ensures
        render(segs) == join_lines(decoded_all(segs)),
    decreases segs.len(),
{
    if segs.len() >= 2 {
        let t = segs.drop_first();
        assert forall|i: int| 0 <= i < t.len() implies valid_utf8(#[trigger] t[i]) by {
            assert(t[i] == segs[i + 1]);
        }
        lemma_render_valid(t);
        assert(decoded_all(segs).drop_first() =~= decoded_all(t));
    }
}

/// A payload with `k` separators, the first byte not one of them, has `k + 1`
/// segments; when all of them are well-formed UTF-8 its text is their decodings
/// joined by newlines, the last one without a newline after it.
pub proof fn lemma_payload_lines(b: Seq<u8>)
    requires
        b.len() == 0 || b[0] != SEPARATOR,
    ensures
        segments(b).len() == separator_count(b) + 1,
        (forall|i: int| 0 <= i < segments(b).len() ==> valid_utf8(#[trigger] segments(b)[i]))
            ==> payload_text(b) == join_lines(decoded_all(segments(b))),
{
    lemma_segment_count(b);
    if forall|i: int| 0 <= i < segments(b).len() ==> valid_utf8(#[trigger] segments(b)[i]) {
        lemma_render_valid(segments(b));
        assert(leading_break(b) =~= Seq::<char>::empty());
        assert(payload_text(b) =~= render(segments(b)));
    }
}

proof fn lemma_render_one_rejected(segs: Seq<Seq<u8>>, j: int)
    requires
        0 <= j < segs.len(),
        !valid_utf8(segs[j]),
        forall|i: int| 0 <= i < segs.len() && i != j ==> valid_utf8(#[trigger] segs[i]),
    ensures
        j + 1 < segs.len() ==> render(segs) == join_lines(decoded_all(segs.remove(j))),
        j + 1 == segs.len() && segs.len() >= 2 ==> render(segs) == join_lines(
            decoded_all(segs.remove(j)),
        ).push('\n'),
        segs.len() == 1 ==> render(segs) == Seq::<char>::empty(),
    decreases segs.len(),
{
    let t = segs.drop_first();
    if j == 0 {
        assert(segs.remove(0) =~= t);
        if segs.len() >= 2 {
            assert forall|i: int| 0 <= i < t.len() implies valid_utf8(#[trigger] t[i]) by {
                assert(t[i] == segs[i + 1]);
            }
            lemma_render_valid(t);
        }
    } else {
        assert forall|i: int| 0 <= i < t.len() && i != j - 1 implies valid_utf8(
            #[trigger] t[i],
        ) by {
            assert(t[i] == segs[i + 1]);
        }
        assert(t[j - 1] == segs[j]);
        assert(valid_utf8(segs[0]));
        lemma_render_one_rejected(t, j - 1);
        let kept = segs.remove(j);
        assert(kept.drop_first() =~= t.remove(j - 1));
        assert(decoded_all(kept).drop_first() =~= decoded_all(t.remove(j - 1)));
        if t.len() == 1 {
            assert(t.remove(0) =~= Seq::<Seq<u8>>::empty());
            assert(render(segs) =~= decode_utf8(segs[0]).push('\n'));
        }
    }
}

/// In a payload with one segment that is not well-formed UTF-8 among
/// well-formed ones, that segment is left out and the rest are joined as if it
/// had not been there; when it was the final segment, the line before it keeps
/// its newline.
pub proof fn lemma_payload_one_rejected(b: Seq<u8>, j: int)
    requires
        0 <= j < segments(b).len(),
        !valid_utf8(segments(b)[j]),
        forall|i: int|
            0 <= i < segments(b).len() && i != j ==> valid_utf8(#[trigger] segments(b)[i]),
    ensures
        j + 1 < segments(b).len() ==> payload_text(b) == leading_break(b) + join_lines(
            decoded_all(segments(b).remove(j)),
        ),
        j + 1 == segments(b).len() && j > 0 ==> payload_text(b) == leading_break(b)
            + join_lines(decoded_all(segments(b).remove(j))).push('\n'),
        segments(b).len() == 1 ==> payload_text(b) == leading_break(b),
{
    lemma_render_one_rejected(segments(b), j);
    assert(leading_break(b) + Seq::<char>::empty() =~= leading_break(b));
}

/// Relies on `std::str::from_utf8`: it succeeds exactly on well-formed UTF-8,
/// and the text it then returns is the decoding of the bytes.
#[verifier::external_body]
fn utf8_text(b: &[u8]) -> (r: Option<&str>)
    ensures
        r is Some <==> valid_utf8(b@),
        r is Some ==> r->0@ == decode_utf8(b@),
{
    std::str::from_utf8(b).ok()
}

/// A decoded payload, with what the decoder has to report about it.
pub struct DecodedPayload {
    /// The text for the clipboard.
    pub text: String,
    /// How many segments the payload had.
    pub lines: usize,
    /// The 1-based numbers of the segments that were left out.
    pub failed: Vec<usize>,
}

/// Decodes a payload: each separator ends a line, the final segment follows
/// without a newline, and a segment that is not well-formed UTF-8 is left out.
pub fn decode_payload(bytes: &[u8]) -> (r: DecodedPayload)
    requires
        bytes@.len() < usize::MAX,
    ensures
        r.text@ == payload_text(bytes@),
        r.lines == segments(bytes@).len(),
        r.failed@.map_values(|n: usize| n as nat) == rejected_lines(bytes@),
{
    let ghost b = bytes@;
    let len = bytes.len();
    let mut text = String::new();
    if len > 0 && bytes[0] == SEPARATOR {
        text.append("\n");
        proof {
            reveal_strlit("\n");
        }
    }
    let mut failed: Vec<usize> = Vec::new();
    let mut start: usize = 0;
    let mut line: usize = 0;
    proof {
        assert(b.subrange(0, len as int) =~= b);
        assert(text@ =~= leading_break(b));
        assert(failed@.map_values(|n: usize| n as nat) =~= Seq::<nat>::empty());
    }
    loop
        invariant
            b == bytes@,
            len == b.len(),
            len < usize::MAX,
            line <= start <= len,
            text@ + render(segments(b.subrange(start as int, len as int))) == payload_text(b),
            line + segments(b.subrange(start as int, len as int)).len() == segments(b).len(),
            failed@.map_values(|n: usize| n as nat) + rejected_from(
                segments(b.subrange(start as int, len as int)),
                (line + 1) as nat,
            ) == rejected_lines(b),
        decreases len - start,
    {
        let ghost rest = b.subrange(start as int, len as int);
        let mut i = start;
        while i < len && bytes[i] != SEPARATOR
            invariant
                b == bytes@,
                len == b.len(),
                start <= i <= len,
                forall|j: int| start <= j < i ==> b[j] != SEPARATOR,
            decreases len - i,
        {
            i = i + 1;
        }
        let seg = &bytes[start..i];
        let decoded = utf8_text(seg);
        if i < len {
            proof {
                lemma_segments_split(rest, i - start);
                assert(rest.subrange(0, i - start) =~= seg@);
                assert(rest.subrange(i - start + 1, rest.len() as int) =~= b.subrange(
                    i + 1,
                    len as int,
                ));
            }
            let ghost after = b.subrange(i + 1, len as int);
            let ghost old_text = text@;
            let ghost old_failed = failed@;
            match decoded {
                Some(s) => {
                    text.append(s);
                    text.append("\n");
                    proof {
                        reveal_strlit("\n");
                    }
                },
                None => {
                    failed.push(line + 1);
                },
            }
            proof {
                lemma_segments_nonempty(after);
                let segs = segments(rest);
                assert(segs.drop_first() =~= segments(after));
                assert(text@ =~= old_text + line_text(seg@));
                assert(text@ + render(segments(after)) =~= old_text + render(segs));
                assert(failed@.map_values(|n: usize| n as nat) + rejected_from(
                    segments(after),
                    (line + 2) as nat,
                ) =~= old_failed.map_values(|n: usize| n as nat) + rejected_from(
                    segs,
                    (line + 1) as nat,
                ));
            }
            start = i + 1;
            line = line + 1;
        } else {
            proof {
                lemma_segments_whole(rest);
                assert(rest =~= seg@);
            }
            let ghost old_text = text@;
            let ghost old_failed = failed@;
            match decoded {
                Some(s) => {
                    text.append(s);
                },
                None => {
                    failed.push(line + 1);
                },
            }
            proof {
                assert(seq![rest].drop_first() =~= Seq::<Seq<u8>>::empty());
                assert(rejected_from(Seq::<Seq<u8>>::empty(), (line + 2) as nat) =~= Seq::<nat>::empty());
                assert(text@ =~= old_text + segment_text(rest));
                assert(failed@.map_values(|n: usize| n as nat) =~= old_failed.map_values(
                    |n: usize| n as nat,
                ) + rejected_from(seq![rest], (line + 1) as nat));
            }
            return DecodedPayload { text, lines: line + 1, failed };
        }
    }
}

} // verus!
