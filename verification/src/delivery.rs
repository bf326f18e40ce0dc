//! Splitting outgoing chat messages into pieces the server accepts: a long
//! message is cut every `max` bytes of its UTF-8 form, and a piece that does
//! not start and end on a character boundary is replaced by a marker.
use vstd::prelude::*;
use crate::text::{byte_len, byte_len_wide, char_width, char_width_exec, chars_of, slice_chars, string_of, string_views};

verus! {

/// Longest message sent to a channel or the server, in bytes.
pub const SERVER_MESSAGE_LIMIT: usize = 8000;

/// Longest private message, in bytes.
pub const PRIVATE_MESSAGE_LIMIT: usize = 1024;

/// What is sent in place of a piece that would split a character.
pub open spec fn truncated_marker() -> Seq<char> {
    "[message truncated]"@
}

/// Bytes taken by the first `i` characters.
pub open spec fn offset(s: Seq<char>, i: int) -> nat {
    byte_len(s.take(i))
}

/// Whether byte position `b` falls between two characters (or at an end).
pub open spec fn is_boundary(s: Seq<char>, b: int) -> bool {
    exists|i: int| 0 <= i <= s.len() && #[trigger] offset(s, i) == b
}

/// The character index at byte position `b`, when that is a boundary.
pub open spec fn boundary_at(s: Seq<char>, b: int) -> int {
    choose|i: int| 0 <= i <= s.len() && #[trigger] offset(s, i) == b
}

/// The text of bytes `a..b`, or the marker when it is not whole characters.
pub open spec fn piece(s: Seq<char>, a: int, b: int) -> Seq<char> {
    if is_boundary(s, a) && is_boundary(s, b) {
        s.subrange(boundary_at(s, a), boundary_at(s, b))
    } else {
        truncated_marker()
    }
}

pub open spec fn bytes_left(s: Seq<char>, start: nat) -> nat {
    if start < byte_len(s) {
        (byte_len(s) - start) as nat
    } else {
        0
    }
}

/// The pieces of `max` bytes from byte `start` on, the last one shorter.
pub open spec fn chunks_from(s: Seq<char>, max: nat, start: nat) -> Seq<Seq<char>>
    decreases bytes_left(s, start),
{
    if max == 0 || start >= byte_len(s) {
        Seq::empty()
    } else {
        let end = if start + max < byte_len(s) {
            start + max
        } else {
            byte_len(s)
        };
        seq![piece(s, start as int, end as int)] + chunks_from(s, max, start + max)
    }
}

/// The pieces a message is sent in: the message itself when it fits in
/// `max` bytes, else its pieces of `max` bytes.
pub open spec fn message_chunks_spec(s: Seq<char>, max: nat) -> Seq<Seq<char>> {
    if byte_len(s) <= max {
        seq![s]
    } else {
        chunks_from(s, max, 0)
    }
}

proof fn lemma_offset_step(s: Seq<char>, i: int)
    requires
        0 <= i < s.len(),
    ensures
        offset(s, i + 1) == offset(s, i) + char_width(s[i]),
{
    assert(s.take(i + 1).drop_last() =~= s.take(i));
}

proof fn lemma_offsets_increase(s: Seq<char>, i: int, j: int)
    requires
        0 <= i < j <= s.len(),
    ensures
        offset(s, i) < offset(s, j),
    decreases j - i,
{
    lemma_offset_step(s, j - 1);
    if i < j - 1 {
        lemma_offsets_increase(s, i, j - 1);
    }
}

/// At the first character index whose offset reaches `b`, `b` is a
/// boundary exactly when the offset equals it, and then it is that index.
proof fn lemma_first_at_least(s: Seq<char>, pos: int, b: int)
    requires
        0 <= pos <= s.len(),
        offset(s, pos) >= b,
        pos == 0 || offset(s, pos - 1) < b,
    ensures
        is_boundary(s, b) <==> offset(s, pos) == b,
        offset(s, pos) == b ==> boundary_at(s, b) == pos,
{
    assert forall|i: int| 0 <= i <= s.len() && i != pos implies #[trigger] offset(s, i) != b by {
        if i < pos {
            if i < pos - 1 {
                lemma_offsets_increase(s, i, pos - 1);
            }
        } else {
            lemma_offsets_increase(s, pos, i);
        }
    }
    if offset(s, pos) == b {
        assert(is_boundary(s, b));
    }
}

/// The pieces a message is sent in (see `message_chunks_spec`).
pub fn message_chunks(message: &str, max_len: usize) -> (r: Vec<String>)
    requires
        max_len > 0,
    ensures
        string_views(r@) == message_chunks_spec(message@, max_len as nat),
{
    let v = chars_of(message);
    let n = byte_len_wide(v.as_slice());
    let max = max_len as u128;
    let mut out: Vec<String> = Vec::new();
    if n <= max {
        out.push(message.to_string());
        assert(string_views(out@) =~= seq![message@]);
        return out;
    }
    let ghost s = v@;
    let count: usize = v.len();
    assert(n <= 4 * count);
    let mut start: u128 = 0;
    let mut pos: usize = 0;
    let mut off: u128 = 0;
    assert(s.take(0) =~= Seq::<char>::empty());
    while start < n
        invariant
            s == v@,
            s == message@,
            n == byte_len(s),
            n <= 4 * usize::MAX,
            max == max_len,
            max > 0,
            pos <= s.len(),
            off == offset(s, pos as int),
            start <= n + max,
            off >= (if start < n { start } else { n }),
            pos == 0 || offset(s, pos - 1) < (if start < n { start } else { n }),
            string_views(out@) + chunks_from(s, max as nat, start as nat) == chunks_from(s, max as nat, 0),
        decreases n + max - start,
    {
        let end: u128 = if start + max < n {
            start + max
        } else {
            n
        };
        let i0 = pos;
        let at_start = off == start;
        proof {
            lemma_first_at_least(s, i0 as int, start as int);
        }
        while pos < v.len() && off < end
            invariant
                s == v@,
                n == byte_len(s),
                n <= 4 * usize::MAX,
                i0 <= pos <= s.len(),
                off == offset(s, pos as int),
                start < end <= n,
                offset(s, i0 as int) >= start,
                pos == 0 || offset(s, pos - 1) < end,
            decreases s.len() - pos,
        {
            proof {
                lemma_offset_step(s, pos as int);
            }
            off = off + char_width_exec(v[pos]) as u128;
            pos = pos + 1;
        }
        proof {
            if pos == v.len() {
                assert(s.take(s.len() as int) =~= s);
            }
            lemma_first_at_least(s, pos as int, end as int);
        }
        let ghost prev = string_views(out@);
        let text = if at_start && off == end {
            let cs = slice_chars(v.as_slice(), i0, pos);
            string_of(cs.as_slice())
        } else {
            "[message truncated]".to_string()
        };
        assert(text@ == piece(s, start as int, end as int));
        out.push(text);
        assert(string_views(out@) =~= prev.push(text@));
        assert(chunks_from(s, max as nat, start as nat) == seq![piece(s, start as int, end as int)]
            + chunks_from(s, max as nat, (start + max) as nat));
        assert(prev + chunks_from(s, max as nat, start as nat) =~= prev.push(text@) + chunks_from(
            s,
            max as nat,
            (start + max) as nat,
        ));
        start = start + max;
    }
    assert(chunks_from(s, max as nat, start as nat) =~= Seq::<Seq<char>>::empty());
    assert(string_views(out@) + Seq::<Seq<char>>::empty() =~= string_views(out@));
    out
}

proof fn lemma_piece_fits(s: Seq<char>, a: int, b: int)
    requires
        0 <= a <= b,
    ensures
        piece(s, a, b) == truncated_marker() || byte_len(piece(s, a, b)) <= b - a,
{
    if is_boundary(s, a) && is_boundary(s, b) {
        let i = boundary_at(s, a);
        let j = boundary_at(s, b);
        if i <= j {
            assert(s.take(j) =~= s.take(i) + s.subrange(i, j));
            crate::text::lemma_byte_len_concat(s.take(i), s.subrange(i, j));
        } else {
            lemma_offsets_increase(s, j, i);
        }
    }
}

proof fn lemma_chunks_fit(s: Seq<char>, max: nat, start: nat, k: int)
    requires
        0 <= k < chunks_from(s, max, start).len(),
    ensures
        chunks_from(s, max, start)[k] == truncated_marker() || byte_len(chunks_from(s, max, start)[k]) <= max,
    decreases bytes_left(s, start),
{
    let end = if start + max < byte_len(s) {
        start + max
    } else {
        byte_len(s)
    };
    lemma_piece_fits(s, start as int, end as int);
    if k > 0 {
        lemma_chunks_fit(s, max, start + max, k - 1);
    }
}

/// Every piece a message is sent in is the marker or fits in `max` bytes.
pub proof fn law_pieces_fit(s: Seq<char>, max: nat, k: int)
    requires
        max > 0,
        0 <= k < message_chunks_spec(s, max).len(),
    ensures
        message_chunks_spec(s, max)[k] == truncated_marker() || byte_len(message_chunks_spec(s, max)[k]) <= max,
{
    if byte_len(s) > max {
        lemma_chunks_fit(s, max, 0, k);
    }
}

pub open spec fn is_ascii_text(s: Seq<char>) -> bool {
    forall|i: int| 0 <= i < s.len() ==> (#[trigger] s[i] as u32) < 0x80
}

proof fn lemma_ascii_offsets(s: Seq<char>, i: int)
    requires
        is_ascii_text(s),
        0 <= i <= s.len(),
    ensures
        offset(s, i) == i,
    decreases i,
{
    if i > 0 {
        lemma_ascii_offsets(s, i - 1);
        lemma_offset_step(s, i - 1);
    }
}

proof fn lemma_ascii_piece(s: Seq<char>, a: int, b: int)
    requires
        is_ascii_text(s),
        0 <= a <= b <= s.len(),
    ensures
        piece(s, a, b) == s.subrange(a, b),
{
    lemma_ascii_offsets(s, a);
    lemma_ascii_offsets(s, b);
    assert(is_boundary(s, a));
    assert(is_boundary(s, b));
    let i = boundary_at(s, a);
    let j = boundary_at(s, b);
    lemma_ascii_offsets(s, i);
    lemma_ascii_offsets(s, j);
}

proof fn lemma_ascii_len(s: Seq<char>)
    requires
        is_ascii_text(s),
    ensures
        byte_len(s) == s.len(),
{
    lemma_ascii_offsets(s, s.len() as int);
    assert(s.take(s.len() as int) =~= s);
}

proof fn lemma_chunks_rejoin(s: Seq<char>, max: nat, start: nat)
    requires
        is_ascii_text(s),
        max > 0,
    ensures
        chunks_from(s, max, start).flatten() == if start < s.len() {
            s.skip(start as int)
        } else {
            Seq::<char>::empty()
        },
    decreases bytes_left(s, start),
{
    lemma_ascii_len(s);
    if start < s.len() {
        let end = if start + max < s.len() {
            start + max
        } else {
            s.len()
        };
        lemma_ascii_piece(s, start as int, end as int);
        lemma_chunks_rejoin(s, max, start + max);
        let c = chunks_from(s, max, start);
        let rest = chunks_from(s, max, start + max);
        assert(c.drop_first() =~= rest);
        if start + max < s.len() {
            assert(s.subrange(start as int, end as int) + s.skip((start + max) as int) =~= s.skip(start as int));
        } else {
            assert(s.subrange(start as int, end as int) + Seq::<char>::empty() =~= s.skip(start as int));
        }
    }
}

/// A message of plain ASCII text is sent whole: its pieces, put back
/// together in order, are the message.
pub proof fn law_ascii_pieces_rejoin(s: Seq<char>, max: nat)
    requires
        is_ascii_text(s),
        max > 0,
    ensures
        message_chunks_spec(s, max).flatten() == s,
{
    lemma_ascii_len(s);
    if byte_len(s) <= max {
        seq![s].lemma_flatten_one_element();
    } else {
        lemma_chunks_rejoin(s, max, 0);
        assert(s.skip(0) =~= s);
    }
}

} // verus!
