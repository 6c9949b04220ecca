//! Record boundaries in a byte buffer.
//!
//! An ADIF record ends with the marker `<eor>`, in any mix of upper and lower case,
//! and the carriage returns and line feeds that directly follow it. The boundary of a
//! buffer is the offset just behind the last such terminator: everything before it is
//! whole records, everything after it is a record still being written.

use vstd::prelude::*;

verus! {

/// Number of bytes in the marker `<eor>`.
pub const MARKER_LEN: usize = 5;

/// True when `b` is the ASCII letter `lower`, in either case. `lower` is a lower-case letter.
pub open spec fn is_letter(b: u8, lower: u8) -> bool {
    b == lower || b + 32 == lower
}

/// True when the five bytes of `s` from offset `i` on spell `<eor>`, in any case.
pub open spec fn marker_at(s: Seq<u8>, i: int) -> bool {
    &&& 0 <= i
    &&& i + 5 <= s.len()
    &&& s[i] == 0x3c
    &&& is_letter(s[i + 1], 0x65)
    &&& is_letter(s[i + 2], 0x6f)
    &&& is_letter(s[i + 3], 0x72)
    &&& s[i + 4] == 0x3e
}

/// True when some marker lies in `s`.
pub open spec fn has_marker(s: Seq<u8>) -> bool {
    exists|i: int| marker_at(s, i)
}

/// Carriage return or line feed.
pub open spec fn is_line_break(b: u8) -> bool {
    b == 0x0d || b == 0x0a
}

/// True when every byte of `s` is a carriage return or a line feed.
pub open spec fn all_line_breaks(s: Seq<u8>) -> bool {
    forall|j: int| 0 <= j < s.len() ==> is_line_break(#[trigger] s[j])
}

/// The end of the last marker that lies within the first `n` bytes of `s`, or 0 when
/// there is none.
pub open spec fn last_marker_end(s: Seq<u8>, n: int) -> int
    decreases n,
{
    if n < 5 {
        0
    } else if marker_at(s, n - 5) {
        n
    } else {
        last_marker_end(s, n - 1)
    }
}

/// The offset of the first byte from `i` on that is no line break, or the length of `s`.
pub open spec fn line_breaks_end(s: Seq<u8>, i: int) -> int
    decreases s.len() - i,
{
    if 0 <= i < s.len() && is_line_break(s[i]) {
        line_breaks_end(s, i + 1)
    } else {
        i
    }
}

/// The offset just behind the last terminator of `s`: the last marker and the line
/// breaks that follow it. It is 0 when `s` holds no marker.
pub open spec fn boundary(s: Seq<u8>) -> int {
    let end = last_marker_end(s, s.len() as int);
    if end == 0 {
        0
    } else {
        line_breaks_end(s, end)
    }
}

/// What `last_marker_end` finds: the marker it names lies within the first `n` bytes and
/// no marker within them ends later; 0 says that none lies within them.
pub proof fn lemma_last_marker_end(s: Seq<u8>, n: int)
    requires
        0 <= n <= s.len(),
    ensures
        0 <= last_marker_end(s, n) <= n,
        last_marker_end(s, n) != 0 ==> marker_at(s, last_marker_end(s, n) - 5),
        forall|j: int| marker_at(s, j) && j + 5 <= n ==> j + 5 <= last_marker_end(s, n),
    decreases n,
{
    if n >= 5 && !marker_at(s, n - 5) {
        lemma_last_marker_end(s, n - 1);
    }
}

/// What `line_breaks_end` finds: the bytes from `i` up to it are line breaks, and the
/// byte at it, if there is one, is none.
pub proof fn lemma_line_breaks_end(s: Seq<u8>, i: int)
    requires
        0 <= i <= s.len(),
    ensures
        i <= line_breaks_end(s, i) <= s.len(),
        forall|j: int| i <= j < line_breaks_end(s, i) ==> is_line_break(#[trigger] s[j]),
        line_breaks_end(s, i) < s.len() ==> !is_line_break(s[line_breaks_end(s, i)]),
    decreases s.len() - i,
{
    if i < s.len() && is_line_break(s[i]) {
        lemma_line_breaks_end(s, i + 1);
    }
}

/// A run of line breaks from `i` that stops at `e` is the one `line_breaks_end` finds.
pub proof fn lemma_line_breaks_end_is(s: Seq<u8>, i: int, e: int)
    requires
        0 <= i <= e <= s.len(),
        forall|j: int| i <= j < e ==> is_line_break(#[trigger] s[j]),
        e < s.len() ==> !is_line_break(s[e]),
    ensures
        line_breaks_end(s, i) == e,
    decreases e - i,
{
    if i < e {
        lemma_line_breaks_end_is(s, i + 1, e);
    }
}

/// The boundary lies within the buffer, and it is 0 exactly when no marker does.
pub proof fn lemma_boundary_bounds(s: Seq<u8>)
    ensures
        0 <= boundary(s) <= s.len(),
        boundary(s) == 0 <==> !has_marker(s),
        boundary(s) != 0 ==> last_marker_end(s, s.len() as int) <= boundary(s),
{
    let end = last_marker_end(s, s.len() as int);
    lemma_last_marker_end(s, s.len() as int);
    if end != 0 {
        lemma_line_breaks_end(s, end);
        assert(marker_at(s, end - 5));
    } else {
        assert forall|j: int| !marker_at(s, j) by {
            if marker_at(s, j) {
                assert(j + 5 <= end);
            }
        }
    }
}

/// The boundary is `e` when the last marker of `s` starts at `m`, line breaks fill the
/// bytes from its end up to `e`, and `e` is the end of `s` or holds another byte.
pub proof fn lemma_boundary_is(s: Seq<u8>, m: int, e: int)
    requires
        marker_at(s, m),
        forall|j: int| marker_at(s, j) ==> j <= m,
        m + 5 <= e <= s.len(),
        forall|j: int| m + 5 <= j < e ==> is_line_break(#[trigger] s[j]),
        e < s.len() ==> !is_line_break(s[e]),
    ensures
        boundary(s) == e,
{
    lemma_last_marker_end(s, s.len() as int);
    let end = last_marker_end(s, s.len() as int);
    assert(m + 5 <= end);
    assert(marker_at(s, end - 5));
    lemma_line_breaks_end_is(s, m + 5, e);
}

/// A marker is a matter of its five bytes: where two buffers hold the same five bytes,
/// one from `i` on and the other from `j` on, both have a marker there or neither has.
proof fn lemma_same_bytes_same_marker(a: Seq<u8>, i: int, b: Seq<u8>, j: int)
    requires
        0 <= i,
        i + 5 <= a.len(),
        0 <= j,
        j + 5 <= b.len(),
        a[i] == b[j],
        a[i + 1] == b[j + 1],
        a[i + 2] == b[j + 2],
        a[i + 3] == b[j + 3],
        a[i + 4] == b[j + 4],
    ensures
        marker_at(a, i) == marker_at(b, j),
{
}

/// A marker of `b` is a marker of `a + b`, further back by the length of `a`, and the
/// other way round.
pub proof fn lemma_marker_in_back(a: Seq<u8>, b: Seq<u8>, j: int)
    requires
        0 <= j,
    ensures
        marker_at(b, j) == marker_at(a + b, a.len() + j),
{
    if j + 5 <= b.len() {
        lemma_same_bytes_same_marker(b, j, a + b, a.len() + j);
    }
}

/// A marker that lies within `a` is a marker of `a + b`, and the other way round.
pub proof fn lemma_marker_in_front(a: Seq<u8>, b: Seq<u8>, j: int)
    requires
        j + 5 <= a.len(),
    ensures
        marker_at(a, j) == marker_at(a + b, j),
{
    if 0 <= j {
        lemma_same_bytes_same_marker(a, j, a + b, j);
    }
}

/// A marker cannot start inside another one, nor on a line break: such a byte is no `<`.
pub proof fn lemma_no_marker_inside(s: Seq<u8>, m: int, e: int, j: int)
    requires
        marker_at(s, m),
        m + 5 <= e <= s.len(),
        forall|k: int| m + 5 <= k < e ==> is_line_break(#[trigger] s[k]),
        m < j < e,
    ensures
        !marker_at(s, j),
{
    if j >= m + 5 {
        assert(is_line_break(s[j]));
    }
}

/// What is left behind the boundary holds no marker.
pub proof fn lemma_rest_has_no_marker(s: Seq<u8>)
    ensures
        !has_marker(s.skip(boundary(s))),
        boundary(s.skip(boundary(s))) == 0,
{
    let b = boundary(s);
    let rest = s.skip(b);
    lemma_boundary_bounds(s);
    lemma_last_marker_end(s, s.len() as int);
    assert forall|j: int| !marker_at(rest, j) by {
        if marker_at(rest, j) {
            lemma_same_bytes_same_marker(rest, j, s, j + b);
        }
    }
    lemma_boundary_bounds(rest);
}

/// Two buffers of one length that have their markers and their line breaks at the same
/// offsets have the same boundary.
pub proof fn lemma_boundary_alike(a: Seq<u8>, b: Seq<u8>)
    requires
        a.len() == b.len(),
        forall|i: int| marker_at(a, i) == marker_at(b, i),
        forall|i: int| 0 <= i < a.len() ==> is_line_break(#[trigger] a[i]) == is_line_break(b[i]),
    ensures
        boundary(a) == boundary(b),
{
    lemma_boundary_bounds(a);
    lemma_boundary_bounds(b);
    if has_marker(a) {
        let end = last_marker_end(a, a.len() as int);
        let e = boundary(a);
        lemma_last_marker_end(a, a.len() as int);
        lemma_line_breaks_end(a, end);
        assert(marker_at(b, end - 5));
        assert forall|j: int| marker_at(b, j) implies j <= end - 5 by {
            assert(marker_at(a, j));
        }
        assert forall|j: int| end <= j < e implies is_line_break(#[trigger] b[j]) by {
            assert(is_line_break(a[j]));
        }
        if e < b.len() {
            assert(is_line_break(a[e]) == is_line_break(b[e]));
        }
        lemma_boundary_is(b, end - 5, e);
    } else {
        assert forall|j: int| !marker_at(b, j) by {
            assert(!marker_at(a, j));
        }
    }
}

/// The lower-case form of an ASCII capital letter; any other byte is left as it is.
pub open spec fn to_lower(b: u8) -> u8 {
    if 0x41 <= b <= 0x5a {
        (b + 32) as u8
    } else {
        b
    }
}

/// A complete record: any bytes without a marker, then one marker, then line breaks only.
pub open spec fn is_record(r: Seq<u8>) -> bool {
    exists|m: int| is_record_with_marker(r, m)
}

/// A complete record whose one marker starts at `m`.
pub open spec fn is_record_with_marker(r: Seq<u8>, m: int) -> bool {
    &&& marker_at(r, m)
    &&& forall|j: int| marker_at(r, j) ==> j == m
    &&& forall|j: int| m + 5 <= j < r.len() ==> is_line_break(#[trigger] r[j])
}

/// The start of a record that is still being written: it holds no marker and does not
/// begin with a line break.
pub open spec fn is_partial_record(t: Seq<u8>) -> bool {
    !has_marker(t) && (t.len() > 0 ==> !is_line_break(t[0]))
}

/// Whole records followed by the start of another: the boundary lies just behind the
/// records, whatever their number, and leaves the unfinished one out.
///
/// With no record at all the boundary is 0, also where the unfinished bytes begin with
/// line breaks. Behind a record such line breaks would belong to its terminator, which
/// is why the second case asks for a tail that begins with another byte.
pub proof fn boundary_of_records(records: Seq<Seq<u8>>, tail: Seq<u8>)
    requires
        forall|k: int| 0 <= k < records.len() ==> is_record(#[trigger] records[k]),
        !has_marker(tail),
        records.len() > 0 ==> is_partial_record(tail),
    ensures
        boundary(records.flatten() + tail) == records.flatten().len(),
{
    let all = records.flatten() + tail;
    if records.len() == 0 {
        assert(records.flatten() =~= Seq::<u8>::empty());
        assert(all =~= tail);
        lemma_boundary_bounds(tail);
    } else {
        let front = records.drop_last().flatten();
        let last = records.last();
        assert(records.drop_last().push(last) =~= records);
        records.drop_last().lemma_flatten_push(last);
        let flat = records.flatten();
        assert(flat =~= front + last);
        assert(is_record(last));
        let m = choose|m: int| is_record_with_marker(last, m);
        let p = front.len() as int;
        let e = flat.len() as int;
        assert forall|k: int| p <= k < e implies all[k] == last[k - p] by {}
        assert(marker_at(all, p + m)) by {
            lemma_marker_in_back(front, last, m);
            lemma_marker_in_front(flat, tail, p + m);
        }
        assert forall|k: int| p + m + 5 <= k < e implies is_line_break(#[trigger] all[k]) by {
            assert(is_line_break(last[k - p]));
        }
        assert forall|j: int| marker_at(all, j) implies j <= p + m by {
            if j > p + m {
                if j < e {
                    lemma_no_marker_inside(all, p + m, e, j);
                } else {
                    lemma_marker_in_back(flat, tail, j - e);
                }
            }
        }
        if e < all.len() {
            assert(all[e] == tail[0]);
        }
        lemma_boundary_is(all, p + m, e);
    }
}

/// The marker is found whatever the case of its letters: a buffer and its lower-case
/// form have the same boundary.
pub proof fn boundary_ignores_case(s: Seq<u8>)
    ensures
        boundary(s) == boundary(s.map_values(|b: u8| to_lower(b))),
{
    let low = s.map_values(|b: u8| to_lower(b));
    assert forall|i: int| marker_at(s, i) == marker_at(low, i) by {
        if 0 <= i && i + 5 <= s.len() {
            assert(low[i] == to_lower(s[i]));
            assert(low[i + 1] == to_lower(s[i + 1]));
            assert(low[i + 2] == to_lower(s[i + 2]));
            assert(low[i + 3] == to_lower(s[i + 3]));
            assert(low[i + 4] == to_lower(s[i + 4]));
        }
    }
    assert forall|i: int| 0 <= i < s.len() implies is_line_break(#[trigger] s[i])
        == is_line_break(low[i]) by {
        assert(low[i] == to_lower(s[i]));
    }
    lemma_boundary_alike(s, low);
}

/// Line breaks behind a marker belong to its terminator, however many there are: where
/// `s` ends with a marker and `breaks` holds line breaks only, all of `s + breaks` is
/// complete.
pub proof fn boundary_absorbs_line_breaks(s: Seq<u8>, breaks: Seq<u8>)
    requires
        marker_at(s, s.len() - 5),
        all_line_breaks(breaks),
    ensures
        boundary(s + breaks) == s.len() + breaks.len(),
{
    let all = s + breaks;
    let m = s.len() - 5;
    let e = all.len() as int;
    lemma_marker_in_front(s, breaks, m);
    assert forall|k: int| m + 5 <= k < e implies is_line_break(#[trigger] all[k]) by {
        assert(all[k] == breaks[k - s.len()]);
    }
    assert forall|j: int| marker_at(all, j) implies j <= m by {
        if j > m {
            lemma_no_marker_inside(all, m, e, j);
        }
    }
    lemma_boundary_is(all, m, e);
}

/// Tells whether the five bytes of `buf` from offset `i` on spell `<eor>`, in any case.
pub fn is_marker(buf: &[u8], i: usize) -> (found: bool)
    requires
        i + MARKER_LEN <= buf@.len(),
    ensures
        found == marker_at(buf@, i as int),
{
    buf[i] == 0x3c && (buf[i + 1] == 0x65 || buf[i + 1] == 0x45) && (buf[i + 2] == 0x6f || buf[i
        + 2] == 0x4f) && (buf[i + 3] == 0x72 || buf[i + 3] == 0x52) && buf[i + 4] == 0x3e
}

/// Length of the longest prefix of `buf` that is made of complete records.
pub fn complete_len(buf: &[u8]) -> (n: usize)
    ensures
        n == boundary(buf@),
{
    let len: usize = buf.len();
    let mut end: usize = len;
    while end >= MARKER_LEN && !is_marker(buf, end - MARKER_LEN)
        invariant
            end <= len,
            len == buf@.len(),
            last_marker_end(buf@, len as int) == last_marker_end(buf@, end as int),
        decreases end,
    {
        end -= 1;
    }
    if end < MARKER_LEN {
        return 0;
    }
    let mut stop: usize = end;
    while stop < len && (buf[stop] == 0x0d || buf[stop] == 0x0a)
        invariant
            end <= stop <= len,
            len == buf@.len(),
            line_breaks_end(buf@, end as int) == line_breaks_end(buf@, stop as int),
        decreases len - stop,
    {
        stop += 1;
    }
    stop
}

} // verus!
