//! The UTF-8 chunking rule for socket reads: of the bytes buffered so far,
//! consume only a prefix that ends on a code-point boundary, so that a
//! multi-byte character split across two reads is neither lost nor decoded
//! too early.

use vstd::prelude::*;

verus! {

/// The number of bytes a UTF-8 sequence starting with `b` occupies: 1 for
/// ASCII, 2 to 4 for a multi-byte lead, and 0 for a byte that starts no
/// character.
pub open spec fn spec_char_width(b: u8) -> int {
    if b < 0x80 {
        1
    } else if b < 0xC2 {
        0
    } else if b < 0xE0 {
        2
    } else if b < 0xF0 {
        3
    } else if b < 0xF5 {
        4
    } else {
        0
    }
}

/// The number of bytes a UTF-8 sequence starting with `b` occupies.
pub fn utf8_char_width(b: u8) -> (r: usize)
    ensures
        r == spec_char_width(b),
{
    if b < 0x80 {
        1
    } else if b < 0xC2 {
        0
    } else if b < 0xE0 {
        2
    } else if b < 0xF0 {
        3
    } else if b < 0xF5 {
        4
    } else {
        0
    }
}

/// Where the width-walk from `pos` stops: it steps over whole characters
/// (and over bytes that start none, one at a time) and stops at the buffer
/// end or where the last character is still incomplete.
pub open spec fn spec_walk(buf: Seq<u8>, pos: int) -> int
    decreases buf.len() - pos,
{
    if pos < 0 || pos >= buf.len() {
        pos
    } else {
        let w = spec_char_width(buf[pos]);
        if w == 0 {
            spec_walk(buf, pos + 1)
        } else if pos + w <= buf.len() {
            spec_walk(buf, pos + w)
        } else {
            pos
        }
    }
}

/// Where the walk starts: at most three bytes before the end of the buffer,
/// since no UTF-8 character is longer than four bytes.
pub open spec fn spec_walk_start(buf: Seq<u8>) -> int {
    if buf.len() < 3 {
        0
    } else {
        buf.len() - 3
    }
}

/// The walk never moves backwards and never leaves the buffer.
pub proof fn lemma_walk_bounds(buf: Seq<u8>, pos: int)
    requires
        0 <= pos <= buf.len(),
    ensures
        pos <= spec_walk(buf, pos) <= buf.len(),
    decreases buf.len() - pos,
{
    if pos < buf.len() {
        let w = spec_char_width(buf[pos]);
        if w == 0 {
            lemma_walk_bounds(buf, pos + 1);
        } else if pos + w <= buf.len() {
            lemma_walk_bounds(buf, pos + w);
        }
    }
}

/// No ASCII byte is ever held back: on a buffer of ASCII bytes the walk
/// reaches the end, so every complete character is handed out.
pub proof fn lemma_walk_consumes_ascii(buf: Seq<u8>, pos: int)
    requires
        0 <= pos <= buf.len(),
        forall|k: int| 0 <= k < buf.len() ==> buf[k] < 0x80,
    ensures
        spec_walk(buf, pos) == buf.len(),
    decreases buf.len() - pos,
{
    if pos < buf.len() {
        lemma_walk_consumes_ascii(buf, pos + 1);
    }
}

/// Wherever the walk stops short of the end, the first unconsumed byte
/// leads a character whose encoding extends past the buffer: the walk
/// never withholds a complete character.
proof fn lemma_walk_stop(buf: Seq<u8>, pos: int)
    requires
        0 <= pos <= buf.len(),
    ensures
        ({
            let r = spec_walk(buf, pos);
            r < buf.len() ==> spec_char_width(buf[r]) > 0 && r + spec_char_width(buf[r])
                > buf.len()
        }),
    decreases buf.len() - pos,
{
    if pos < buf.len() {
        let w = spec_char_width(buf[pos]);
        if w == 0 {
            lemma_walk_stop(buf, pos + 1);
        } else if pos + w <= buf.len() {
            lemma_walk_stop(buf, pos + w);
        }
    }
}

/// What one read may hold back: at most the last three buffered bytes, and
/// only as the beginning of a single character whose encoding extends past
/// the buffer.  A complete character is never withheld, so a multi-byte
/// character split across two reads is completed by the next one rather
/// than lost or mis-decoded.
pub proof fn lemma_walk_holds_back_only_a_partial_character(buf: Seq<u8>)
    ensures
        ({
            let r = spec_walk(buf, spec_walk_start(buf));
            &&& buf.len() - 3 <= r <= buf.len()
            &&& r < buf.len() ==> spec_char_width(buf[r]) > 0 && r + spec_char_width(buf[r])
                > buf.len()
        }),
{
    lemma_walk_bounds(buf, spec_walk_start(buf));
    lemma_walk_stop(buf, spec_walk_start(buf));
}

/// A UTF-8 continuation byte.
pub open spec fn is_cont_byte(b: u8) -> bool {
    0x80 <= b < 0xC0
}

/// The bytes from `i` up to `p_len` are whole characters: each a lead
/// byte of width `w` followed by `w - 1` continuation bytes.
pub open spec fn spec_utf8_upto(buf: Seq<u8>, i: int, p_len: int) -> bool
    decreases p_len - i,
{
    if i >= p_len {
        i == p_len
    } else {
        let w = spec_char_width(buf[i]);
        if 1 <= w && i + w <= p_len {
            (forall|j: int| i < j < i + w ==> is_cont_byte(#[trigger] buf[j]))
                && spec_utf8_upto(buf, i + w, p_len)
        } else {
            false
        }
    }
}

/// From `p_len` to the end of the buffer stands at most the beginning of
/// one character: nothing, or a lead byte whose encoding extends past the
/// end, followed only by continuation bytes.
pub open spec fn spec_partial_char(buf: Seq<u8>, p_len: int) -> bool {
    if p_len == buf.len() {
        true
    } else {
        &&& 0 <= p_len < buf.len()
        &&& spec_char_width(buf[p_len]) >= 1
        &&& p_len + spec_char_width(buf[p_len]) > buf.len()
        &&& forall|j: int| p_len < j < buf.len() ==> is_cont_byte(#[trigger] buf[j])
    }
}

/// Continuation bytes never stop the walk: it steps over them one at a
/// time.
proof fn lemma_skip_conts(buf: Seq<u8>, m: int, b: int)
    requires
        0 <= m <= b <= buf.len(),
        forall|j: int| m <= j < b ==> is_cont_byte(#[trigger] buf[j]),
    ensures
        spec_walk(buf, m) == spec_walk(buf, b),
    decreases b - m,
{
    if m < b {
        assert(spec_char_width(buf[m]) == 0);
        lemma_skip_conts(buf, m + 1, b);
    }
}

/// From any position inside the well-formed part — a character boundary
/// or the middle of a character — the walk lands exactly on `p_len`.
proof fn lemma_walk_from(buf: Seq<u8>, i: int, p_len: int, start: int)
    requires
        p_len <= buf.len(),
        spec_utf8_upto(buf, i, p_len),
        spec_partial_char(buf, p_len),
        0 <= i <= start <= p_len,
    ensures
        spec_walk(buf, start) == p_len,
    decreases p_len - i,
{
    if i == p_len {
    } else {
        let w = spec_char_width(buf[i]);
        let next = i + w;
        if start >= next {
            lemma_walk_from(buf, next, p_len, start);
        } else if start == i {
            lemma_walk_from(buf, next, p_len, next);
        } else {
            lemma_skip_conts(buf, start, next);
            lemma_walk_from(buf, next, p_len, next);
        }
    }
}

/// The chunking rule, in full: a buffer of whole characters followed by at
/// most the beginning of one more is split exactly at the boundary.  All
/// complete characters are handed out and only the partial character stays
/// buffered, so a character split across two reads is neither lost nor
/// decoded too early.
pub proof fn lemma_walk_splits_at_the_boundary(buf: Seq<u8>, p_len: int)
    requires
        0 <= p_len <= buf.len(),
        spec_utf8_upto(buf, 0, p_len),
        spec_partial_char(buf, p_len),
    ensures
        spec_walk(buf, spec_walk_start(buf)) == p_len,
{
    if p_len < buf.len() {
        assert(spec_char_width(buf[p_len]) <= 4);
    }
    lemma_walk_from(buf, 0, p_len, spec_walk_start(buf));
}

/// The number of buffered bytes a read may consume: the walk stops at the
/// last complete code point, so a trailing partial character stays in the
/// buffer for the next read.
pub fn utf8_valid_prefix_len(buf: &[u8]) -> (r: usize)
    ensures
        r == spec_walk(buf@, spec_walk_start(buf@)),
        r <= buf@.len(),
{
    let len = buf.len();
    let mut last: usize = if len < 3 {
        0
    } else {
        len - 3
    };
    let mut done = false;
    while !done && last < len
        invariant
            len == buf@.len(),
            last <= len,
            spec_walk(buf@, last as int) == spec_walk(buf@, spec_walk_start(buf@)),
            done ==> spec_walk(buf@, last as int) == last,
        decreases len - last, (if done { 0int } else { 1int }),
    {
        let w = utf8_char_width(buf[last]);
        if w == 0 {
            last = last + 1;
        } else if w <= len - last {
            last = last + w;
        } else {
            done = true;
        }
    }
    last
}

} // verus!
