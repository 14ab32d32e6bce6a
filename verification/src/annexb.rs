//! Splitting an H.264 Annex-B byte stream into access units.
//!
//! A NAL unit begins with a start code, `00 00 01` or `00 00 00 01`. An access unit is one picture:
//! the parameter sets in front of a slice, and the slice. Where a NAL unit ends is known only when
//! the start code of the next one has been seen.
use vstd::prelude::*;

use crate::bytes;

verus! {

/// The length of the start code at offset `p` of `d`: 3 or 4, or 0 where none begins there.
///
/// A short code directly behind a zero byte is the tail of a long one and does not count.
pub open spec fn code_len(d: Seq<u8>, p: int) -> int {
    if 0 <= p && p + 3 <= d.len() && d[p] == 0 && d[p + 1] == 0 && d[p + 2] == 1 && (p == 0
        || d[p - 1] != 0) {
        3
    } else if 0 <= p && p + 4 <= d.len() && d[p] == 0 && d[p + 1] == 0 && d[p + 2] == 0 && d[p + 3]
        == 1 {
        4
    } else {
        0
    }
}

/// The start codes that begin below offset `k`, as (offset, length), in order.
pub open spec fn codes_below(d: Seq<u8>, k: int) -> Seq<(int, int)>
    decreases k,
{
    if k <= 0 {
        Seq::empty()
    } else if code_len(d, k - 1) > 0 {
        codes_below(d, k - 1).push((k - 1, code_len(d, k - 1)))
    } else {
        codes_below(d, k - 1)
    }
}

/// All start codes of `d`, in order.
pub open spec fn codes(d: Seq<u8>) -> Seq<(int, int)> {
    codes_below(d, d.len() as int)
}

/// The type of the NAL unit behind a start code: the low five bits of its first byte, and 0 where
/// that byte has not arrived.
pub open spec fn nal_type(d: Seq<u8>, code: (int, int)) -> u8 {
    if 0 <= code.0 + code.1 < d.len() {
        d[code.0 + code.1] & 0x1f
    } else {
        0
    }
}

/// Whether the NAL unit is a slice of a picture: type 1, or type 5 in a keyframe.
pub open spec fn is_slice(d: Seq<u8>, code: (int, int)) -> bool {
    nal_type(d, code) == 1 || nal_type(d, code) == 5
}

/// The index, from `i` on, of the first slice that another start code follows.
pub open spec fn first_closed_slice(d: Seq<u8>, s: Seq<(int, int)>, i: int) -> Option<int>
    decreases s.len() - i,
{
    if i < 0 || i + 1 >= s.len() {
        None
    } else if is_slice(d, s[i]) {
        Some(i)
    } else {
        first_closed_slice(d, s, i + 1)
    }
}

/// The first complete access unit of `d`, as (keyframe, begin, end).
pub open spec fn first_unit(d: Seq<u8>) -> Option<(bool, int, int)> {
    let s = codes(d);
    match first_closed_slice(d, s, 0) {
        None => None,
        Some(i) => Some((nal_type(d, s[i]) == 5, s[0].0, s[i + 1].0)),
    }
}

/// The complete access units of `d`, in order, and the bytes behind the last of them.
pub open spec fn split(d: Seq<u8>) -> (Seq<(bool, Seq<u8>)>, Seq<u8>)
    decreases d.len(),
{
    match first_unit(d) {
        None => (Seq::empty(), d),
        Some((key, b, e)) => {
            proof {
                lemma_first_unit(d);
            }
            let tail = split(d.subrange(e, d.len() as int));
            (seq![(key, d.subrange(b, e))] + tail.0, tail.1)
        },
    }
}

/// The units of a result vector, as sequences of bytes.
pub open spec fn units_view(v: Seq<(bool, Vec<u8>)>) -> Seq<(bool, Seq<u8>)> {
    v.map_values(|u: (bool, Vec<u8>)| (u.0, u.1@))
}

/// The bytes of a list of units, one behind the other.
pub open spec fn joined(units: Seq<(bool, Seq<u8>)>) -> Seq<u8>
    decreases units.len(),
{
    if units.len() == 0 {
        Seq::empty()
    } else {
        units[0].1 + joined(units.skip(1))
    }
}

proof fn lemma_codes_sound(d: Seq<u8>, k: int)
    ensures
        forall|i: int|
            #![trigger codes_below(d, k)[i]]
            0 <= i < codes_below(d, k).len() ==> {
                &&& 0 <= codes_below(d, k)[i].0 < k
                &&& codes_below(d, k)[i].1 == code_len(d, codes_below(d, k)[i].0)
                &&& codes_below(d, k)[i].1 > 0
            },
    decreases k,
{
    if k > 0 {
        lemma_codes_sound(d, k - 1);
        let s = codes_below(d, k - 1);
        let t = codes_below(d, k);
        assert forall|i: int| #![trigger t[i]] 0 <= i < t.len() implies 0 <= t[i].0 < k && t[i].1
            == code_len(d, t[i].0) && t[i].1 > 0 by {
            if i < s.len() {
                assert(t[i] == s[i]);
            }
        }
    }
}

/// A start code ends before the next one begins.
proof fn lemma_codes_apart(d: Seq<u8>, k: int)
    ensures
        forall|i: int, j: int|
            #![trigger codes_below(d, k)[i], codes_below(d, k)[j]]
            0 <= i < j < codes_below(d, k).len() ==> codes_below(d, k)[i].0 + codes_below(d, k)[i].1
                <= codes_below(d, k)[j].0,
    decreases k,
{
    if k > 0 {
        lemma_codes_apart(d, k - 1);
        lemma_codes_sound(d, k - 1);
        let s = codes_below(d, k - 1);
        let t = codes_below(d, k);
        assert forall|i: int, j: int| #![trigger t[i], t[j]] 0 <= i < j < t.len() implies t[i].0
            + t[i].1 <= t[j].0 by {
            assert(t[i] == s[i]);
            if j < s.len() {
                assert(t[j] == s[j]);
            } else {
                let p = s[i].0;
                assert(code_len(d, p) == s[i].1 && code_len(d, k - 1) > 0 && p < k - 1);
                assert(p + s[i].1 <= k - 1);
            }
        }
    }
}

/// The codes below a smaller offset are a prefix of those below a larger one.
proof fn lemma_codes_prefix(d: Seq<u8>, k: int, m: int)
    requires
        k <= m,
    ensures
        codes_below(d, k).len() <= codes_below(d, m).len(),
        codes_below(d, m).subrange(0, codes_below(d, k).len() as int) == codes_below(d, k),
        forall|i: int|
            codes_below(d, k).len() <= i < codes_below(d, m).len() ==> k <= (
            #[trigger] codes_below(d, m)[i]).0,
    decreases m - k,
{
    if k < m {
        lemma_codes_prefix(d, k, m - 1);
        if m > 0 {
            let s = codes_below(d, m - 1);
            let t = codes_below(d, m);
            let n = codes_below(d, k).len() as int;
            assert(t.subrange(0, n) =~= s.subrange(0, n));
        }
    }
}

/// Bytes that arrive later leave the codes below an earlier offset as they are.
proof fn lemma_codes_extend(x: Seq<u8>, y: Seq<u8>, k: int)
    requires
        k <= x.len() - 3,
    ensures
        codes_below(x + y, k) == codes_below(x, k),
    decreases k,
{
    if k > 0 {
        lemma_codes_extend(x, y, k - 1);
        assert(code_len(x + y, k - 1) == code_len(x, k - 1));
    }
}

/// The codes seen so far stay the first codes when more bytes arrive.
proof fn lemma_codes_stable(x: Seq<u8>, y: Seq<u8>)
    ensures
        codes(x).len() <= codes(x + y).len(),
        codes(x + y).subrange(0, codes(x).len() as int) == codes(x),
{
    let z = x + y;
    let n = x.len() as int;
    if n < 3 {
        reveal_with_fuel(codes_below, 3);
        assert(codes(x) =~= Seq::empty());
    } else {
        lemma_codes_extend(x, y, n - 3);
        reveal_with_fuel(codes_below, 4);
        assert(code_len(x, n - 1) == 0);
        assert(code_len(x, n - 2) == 0);
        assert(codes(x) == codes_below(x, n - 2));
        if code_len(x, n - 3) > 0 {
            assert(code_len(z, n - 3) == code_len(x, n - 3));
            assert(codes_below(z, n - 2) == codes_below(x, n - 2));
            lemma_codes_prefix(z, n - 2, z.len() as int);
        } else {
            lemma_codes_prefix(z, n - 3, z.len() as int);
        }
    }
}

proof fn lemma_first_closed_slice(d: Seq<u8>, s: Seq<(int, int)>, i: int)
    requires
        0 <= i,
    ensures
        first_closed_slice(d, s, i) matches Some(j) ==> i <= j && j + 1 < s.len() && is_slice(d, s[j])
            && forall|m: int| i <= m < j ==> !is_slice(d, #[trigger] s[m]),
        first_closed_slice(d, s, i) is None ==> forall|m: int|
            i <= m && m + 1 < s.len() ==> !is_slice(d, #[trigger] s[m]),
    decreases s.len() - i,
{
    if i + 1 < s.len() && !is_slice(d, s[i]) {
        lemma_first_closed_slice(d, s, i + 1);
    }
}

/// A unit is a proper, non-empty piece of the data that begins and ends at start codes.
pub proof fn lemma_first_unit(d: Seq<u8>)
    ensures
        first_unit(d) matches Some((_, b, e)) ==> 0 <= b < e < d.len() && code_len(d, b) > 0
            && code_len(d, e) > 0,
{
    let s = codes(d);
    lemma_codes_sound(d, d.len() as int);
    lemma_codes_apart(d, d.len() as int);
    lemma_first_closed_slice(d, s, 0);
    if let Some(i) = first_closed_slice(d, s, 0) {
        assert(0 <= s[0].0 < d.len());
        assert(0 <= s[i + 1].0 < d.len());
        assert(s[0].0 + s[0].1 <= s[i + 1].0);
    }
}

proof fn lemma_first_closed_slice_stable(
    x: Seq<u8>,
    y: Seq<u8>,
    s: Seq<(int, int)>,
    t: Seq<(int, int)>,
    i: int,
)
    requires
        0 <= i,
        s == codes(x),
        t == codes(x + y),
        first_closed_slice(x, s, i) is Some,
    ensures
        first_closed_slice(x + y, t, i) == first_closed_slice(x, s, i),
    decreases s.len() - i,
{
    lemma_codes_stable(x, y);
    lemma_codes_sound(x, x.len() as int);
    lemma_codes_apart(x, x.len() as int);
    assert(t.subrange(0, s.len() as int)[i] == s[i]);
    assert(s[i].0 + s[i].1 <= s[i + 1].0 < x.len());
    assert(nal_type(x + y, t[i]) == nal_type(x, s[i]));
    if !is_slice(x, s[i]) {
        lemma_first_closed_slice_stable(x, y, s, t, i + 1);
    }
}

/// A complete unit stays the first one when more bytes arrive.
proof fn lemma_first_unit_stable(x: Seq<u8>, y: Seq<u8>)
    requires
        first_unit(x) is Some,
    ensures
        first_unit(x + y) == first_unit(x),
{
    let s = codes(x);
    let t = codes(x + y);
    lemma_first_closed_slice_stable(x, y, s, t, 0);
    lemma_codes_stable(x, y);
    lemma_first_closed_slice(x, s, 0);
    lemma_codes_sound(x, x.len() as int);
    lemma_codes_apart(x, x.len() as int);
    let i = first_closed_slice(x, s, 0).unwrap();
    assert(t.subrange(0, s.len() as int)[i] == s[i]);
    assert(t.subrange(0, s.len() as int)[i + 1] == s[i + 1]);
    assert(t.subrange(0, s.len() as int)[0] == s[0]);
    assert(s[i].0 + s[i].1 <= s[i + 1].0 < x.len());
    assert(nal_type(x + y, t[i]) == nal_type(x, s[i]));
}

/// The units and the rest do not depend on where the stream was cut into chunks: splitting what
/// arrived first, and then what was left together with what arrived next, gives what splitting all
/// of it at once gives.
pub proof fn chunking_is_irrelevant(x: Seq<u8>, y: Seq<u8>)
    ensures
        split(x + y).0 == split(x).0 + split(split(x).1 + y).0,
        split(x + y).1 == split(split(x).1 + y).1,
    decreases x.len(),
{
    lemma_first_unit(x);
    lemma_first_unit(x + y);
    match first_unit(x) {
        None => {
            assert(split(x) == (Seq::<(bool, Seq<u8>)>::empty(), x));
            assert(split(x).0 + split(x + y).0 =~= split(x + y).0);
        },
        Some((key, b, e)) => {
            lemma_first_unit_stable(x, y);
            let xe = x.subrange(e, x.len() as int);
            assert((x + y).subrange(e, (x + y).len() as int) =~= xe + y);
            assert((x + y).subrange(b, e) =~= x.subrange(b, e));
            chunking_is_irrelevant(xe, y);
            let head = seq![(key, x.subrange(b, e))];
            assert(split(x + y).0 =~= split(x).0 + split(split(x).1 + y).0);
        },
    }
}

/// Nothing is lost or reordered: the units, one behind the other, and then the rest, are the data
/// from its first start code on; and where there is no unit yet, the rest is all of the data.
pub proof fn splitting_keeps_every_byte(d: Seq<u8>)
    ensures
        split(d).0.len() == 0 ==> split(d).1 == d,
        split(d).0.len() > 0 ==> codes(d).len() > 0 && joined(split(d).0) + split(d).1 == d.subrange(
            codes(d)[0].0,
            d.len() as int,
        ),
    decreases d.len(),
{
    lemma_first_unit(d);
    match first_unit(d) {
        None => {},
        Some((key, b, e)) => {
            let rest = d.subrange(e, d.len() as int);
            splitting_keeps_every_byte(rest);
            lemma_first_closed_slice(d, codes(d), 0);
            let units = split(d).0;
            assert(units.skip(1) =~= split(rest).0);
            assert(units[0].1 == d.subrange(b, e));
            if split(rest).0.len() == 0 {
                assert(joined(split(rest).0) =~= Seq::<u8>::empty());
                assert(joined(units) + split(d).1 =~= d.subrange(b, d.len() as int));
            } else {
                lemma_shift(d, e, rest.len() as int);
                assert(code_len(rest, 0) > 0);
                lemma_first_code_at_zero(rest);
                assert(joined(split(rest).0) + split(rest).1 =~= rest);
                assert(joined(units) + split(d).1 =~= d.subrange(b, e) + (joined(split(rest).0)
                    + split(rest).1));
                assert(joined(units) + split(d).1 =~= d.subrange(b, d.len() as int));
            }
        },
    }
}

proof fn lemma_first_code_at_zero(d: Seq<u8>)
    requires
        code_len(d, 0) > 0,
    ensures
        codes(d).len() > 0,
        codes(d)[0].0 == 0,
{
    reveal_with_fuel(codes_below, 2);
    assert(codes_below(d, 1).len() == 1);
    lemma_codes_prefix(d, 1, d.len() as int);
    assert(codes(d).subrange(0, 1)[0] == codes_below(d, 1)[0]);
}

/// The codes behind a start code are those of the data that begins at it.
proof fn lemma_shift(d: Seq<u8>, e: int, k: int)
    requires
        0 <= e <= d.len(),
        0 <= k,
        code_len(d, e) > 0,
    ensures
        codes_below(d, e + k) == codes_below(d, e) + codes_below(
            d.subrange(e, d.len() as int),
            k,
        ).map_values(|c: (int, int)| (c.0 + e, c.1)),
        code_len(d.subrange(e, d.len() as int), 0) > 0,
    decreases k,
{
    let r = d.subrange(e, d.len() as int);
    let f = |c: (int, int)| (c.0 + e, c.1);
    if k == 0 {
        assert(codes_below(r, k).map_values(f) =~= Seq::empty());
        assert(codes_below(d, e) + Seq::<(int, int)>::empty() =~= codes_below(d, e));
    } else {
        lemma_shift(d, e, k - 1);
        assert(code_len(d, e + (k - 1)) == code_len(r, k - 1));
        assert(codes_below(d, e + k) =~= codes_below(d, e) + codes_below(r, k).map_values(f));
    }
}

/// The data from offset `c` on has the codes of `d` from index `au` on.
spec fn is_tail(d: Seq<u8>, c: int, au: int) -> bool {
    let s = codes(d);
    let r = d.subrange(c, d.len() as int);
    &&& 0 <= c <= d.len()
    &&& 0 <= au <= s.len()
    &&& codes(r).len() == s.len() - au
    &&& forall|j: int|
        0 <= j < codes(r).len() ==> #[trigger] codes(r)[j] == (s[au + j].0 - c, s[au + j].1)
}

proof fn lemma_tail_at_code(d: Seq<u8>, m: int)
    requires
        0 <= m < codes(d).len(),
    ensures
        is_tail(d, codes(d)[m].0, m),
{
    let s = codes(d);
    let n = d.len() as int;
    lemma_codes_sound(d, n);
    lemma_codes_apart(d, n);
    let e = s[m].0;
    let r = d.subrange(e, n);
    lemma_shift(d, e, n - e);
    lemma_codes_prefix(d, e, n);
    let low = codes_below(d, e);
    lemma_codes_sound(d, e);
    if low.len() > m {
        assert(s.subrange(0, low.len() as int)[m] == low[m]);
    }
    if low.len() < m {
        assert(s[low.len() as int].0 + s[low.len() as int].1 <= s[m].0);
    }
    let shifted = codes(r).map_values(|c: (int, int)| (c.0 + e, c.1));
    assert(s == low + shifted);
    assert forall|j: int| 0 <= j < codes(r).len() implies #[trigger] codes(r)[j] == (
        s[m + j].0 - e,
        s[m + j].1,
    ) by {
        assert(s[m + j] == shifted[j]);
    }
}

/// The slice at index `i` closes the first unit of the tail.
proof fn lemma_tail_unit(d: Seq<u8>, c: int, au: int, i: int)
    requires
        is_tail(d, c, au),
        au <= i,
        i + 1 < codes(d).len(),
        is_slice(d, codes(d)[i]),
        forall|m: int| au <= m < i ==> !is_slice(d, #[trigger] codes(d)[m]),
    ensures
        first_unit(d.subrange(c, d.len() as int)) == Some(
            (nal_type(d, codes(d)[i]) == 5, codes(d)[au].0 - c, codes(d)[i + 1].0 - c),
        ),
{
    let s = codes(d);
    let r = d.subrange(c, d.len() as int);
    let t = codes(r);
    lemma_tail_types(d, c, au);
    lemma_first_closed_slice(r, t, 0);
    assert(t[i - au] == (s[i].0 - c, s[i].1));
    assert(t[i + 1 - au] == (s[i + 1].0 - c, s[i + 1].1));
    assert(t[0] == (s[au].0 - c, s[au].1));
    assert(is_slice(r, t[i - au]));
    match first_closed_slice(r, t, 0) {
        None => {},
        Some(j) => {
            if j < i - au {
                assert(!is_slice(d, s[au + j]));
                assert(nal_type(r, t[j]) == nal_type(d, s[au + j]));
            }
        },
    }
}

/// Without a closed slice the tail has no unit.
proof fn lemma_tail_no_unit(d: Seq<u8>, c: int, au: int)
    requires
        is_tail(d, c, au),
        forall|m: int| au <= m && m + 1 < codes(d).len() ==> !is_slice(d, #[trigger] codes(d)[m]),
    ensures
        first_unit(d.subrange(c, d.len() as int)) is None,
{
    let s = codes(d);
    let r = d.subrange(c, d.len() as int);
    lemma_tail_types(d, c, au);
    lemma_first_closed_slice(r, codes(r), 0);
    if let Some(j) = first_closed_slice(r, codes(r), 0) {
        assert(!is_slice(d, s[au + j]));
        assert(nal_type(r, codes(r)[j]) == nal_type(d, s[au + j]));
    }
}

proof fn lemma_tail_types(d: Seq<u8>, c: int, au: int)
    requires
        is_tail(d, c, au),
    ensures
        ({
            let r = d.subrange(c, d.len() as int);
            forall|j: int|
                0 <= j < codes(r).len() ==> nal_type(r, #[trigger] codes(r)[j]) == nal_type(
                    d,
                    codes(d)[au + j],
                )
        }),
{
    let r = d.subrange(c, d.len() as int);
    lemma_codes_sound(r, r.len() as int);
}

/// Offset and length of each start code in `data`, in order.
pub fn find_start_codes(data: &[u8]) -> (out: Vec<(usize, usize)>)
    ensures
        out@.map_values(|c: (usize, usize)| (c.0 as int, c.1 as int)) == codes(data@),
{
    let ghost f = |c: (usize, usize)| (c.0 as int, c.1 as int);
    let mut out: Vec<(usize, usize)> = Vec::new();
    let mut i: usize = 0;
    proof {
        assert(out@.map_values(f) =~= codes_below(data@, 0));
    }
    while data.len() >= 3 && i <= data.len() - 3
        invariant
            f == |c: (usize, usize)| (c.0 as int, c.1 as int),
            i <= data.len(),
            out@.map_values(f) == codes_below(data@, i as int),
            0 < i && i + 3 <= data.len() && data[i as int] == 0 && data[i + 1] == 0 && data[i + 2]
                == 1 ==> data[i - 1] != 0,
        decreases data.len() - i,
    {
        let ghost d = data@;
        proof {
            reveal_with_fuel(codes_below, 5);
        }
        if data[i] == 0 && data[i + 1] == 0 {
            if data[i + 2] == 1 {
                assert(code_len(d, i as int) == 3);
                assert(code_len(d, i + 1) == 0);
                assert(code_len(d, i + 2) == 0);
                let ghost before = out@;
                out.push((i, 3));
                assert(out@.map_values(f) =~= before.map_values(f).push((i as int, 3)));
                assert(codes_below(d, i + 3) == codes_below(d, i + 1));
                i = i + 3;
                continue ;
            } else if data.len() - i >= 4 && data[i + 2] == 0 && data[i + 3] == 1 {
                assert(code_len(d, i as int) == 4);
                assert(code_len(d, i + 1) == 0);
                assert(code_len(d, i + 2) == 0);
                assert(code_len(d, i + 3) == 0);
                let ghost before = out@;
                out.push((i, 4));
                assert(out@.map_values(f) =~= before.map_values(f).push((i as int, 4)));
                assert(codes_below(d, i + 4) == codes_below(d, i + 1));
                i = i + 4;
                continue ;
            }
        }
        assert(code_len(d, i as int) == 0);
        i = i + 1;
    }
    proof {
        let d = data@;
        let n = d.len() as int;
        reveal_with_fuel(codes_below, 4);
        assert(code_len(d, n - 1) == 0);
        assert(code_len(d, n - 2) == 0);
        assert(codes_below(d, n) == codes_below(d, i as int));
    }
    out
}

/// The complete units of `data`, and the offset at which the rest begins.
fn cut_units(data: &[u8]) -> (res: (Vec<(bool, Vec<u8>)>, usize))
    ensures
        res.1 <= data.len(),
        units_view(res.0@) == split(data@).0,
        data@.subrange(res.1 as int, data@.len() as int) == split(data@).1,
{
    let starts = find_start_codes(data);
    let ghost f = |c: (usize, usize)| (c.0 as int, c.1 as int);
    let ghost d = data@;
    let ghost s = codes(d);
    let mut out: Vec<(bool, Vec<u8>)> = Vec::new();
    let mut au_start_idx: usize = 0;
    let mut consumed_up_to: usize = 0;
    let mut i: usize = 0;
    proof {
        lemma_codes_sound(d, d.len() as int);
        lemma_codes_apart(d, d.len() as int);
        assert forall|j: int| 0 <= j < s.len() implies s[j] == f(#[trigger] starts@[j]) by {
            assert(s[j] == starts@.map_values(f)[j]);
        }
        assert(d.subrange(0, d.len() as int) =~= d);
        assert(units_view(out@) + split(d).0 =~= split(d).0);
    }
    while i < starts.len()
        invariant
            d == data@,
            s == codes(d),
            f == |c: (usize, usize)| (c.0 as int, c.1 as int),
            starts@.len() == s.len(),
            forall|j: int| 0 <= j < s.len() ==> s[j] == f(#[trigger] starts@[j]),
            forall|j: int|
                0 <= j < s.len() ==> 0 <= (#[trigger] s[j]).0 < d.len() && 0 < s[j].1 <= 4,
            forall|j: int, m: int|
                #![trigger s[j], s[m]]
                0 <= j < m < s.len() ==> s[j].0 + s[j].1 <= s[m].0,
            au_start_idx <= i <= s.len(),
            is_tail(d, consumed_up_to as int, au_start_idx as int),
            forall|m: int| au_start_idx <= m < i ==> !is_slice(d, #[trigger] s[m]),
            split(d).0 == units_view(out@) + split(d.subrange(consumed_up_to as int, d.len() as int)).0,
            split(d).1 == split(d.subrange(consumed_up_to as int, d.len() as int)).1,
        ensures
            i + 1 >= s.len(),
        decreases s.len() - i,
    {
        let (pos, sc_len) = starts[i];
        assert(s[i as int] == f(starts@[i as int]));
        let nal_type: u8 = if sc_len < data.len() - pos {
            data[pos + sc_len] & 0x1f
        } else {
            0
        };
        assert(nal_type == self::nal_type(d, s[i as int]));
        if nal_type == 1 || nal_type == 5 {
            if i + 1 == starts.len() {
                break ;
            }
            assert(s[au_start_idx as int] == f(starts@[au_start_idx as int]));
            assert(s[i + 1] == f(starts@[i + 1]));
            let au_begin: usize = starts[au_start_idx].0;
            let au_end: usize = starts[i + 1].0;
            assert(s[au_start_idx as int].0 < s[i + 1].0);
            let ghost before = out@;
            out.push((nal_type == 5, vstd::slice::slice_to_vec(vstd::slice::slice_subrange(data, au_begin, au_end))));
            proof {
                let c = consumed_up_to as int;
                let r = d.subrange(c, d.len() as int);
                lemma_tail_unit(d, c, au_start_idx as int, i as int);
                lemma_first_unit(r);
                lemma_tail_at_code(d, i + 1);
                let e = au_end as int;
                assert(r.subrange(e - c, r.len() as int) =~= d.subrange(e, d.len() as int));
                let unit = (nal_type == 5, d.subrange(au_begin as int, e));
                assert(r.subrange(au_begin - c, e - c) =~= unit.1);
                assert(units_view(out@) =~= units_view(before).push(unit));
                assert(split(d).0 =~= units_view(out@) + split(d.subrange(e, d.len() as int)).0);
            }
            consumed_up_to = au_end;
            au_start_idx = i + 1;
        }
        i = i + 1;
    }
    proof {
        lemma_tail_no_unit(d, consumed_up_to as int, au_start_idx as int);
        assert(split(d).0 =~= units_view(out@));
    }
    (out, consumed_up_to)
}

/// Groups a byte stream that arrives in chunks into access units.
///
/// The view is what has arrived and is not yet part of a complete unit.
pub struct AnnexBSplitter {
    buf: Vec<u8>,
}

impl View for AnnexBSplitter {
    type V = Seq<u8>;

    closed spec fn view(&self) -> Seq<u8> {
        self.buf@
    }
}

impl AnnexBSplitter {
    /// A splitter that has seen nothing.
    pub fn new() -> (res: Self)
        ensures
            res@ == Seq::<u8>::empty(),
    {
        Self { buf: Vec::new() }
    }

    /// Takes the next chunk and hands out the units it completes, each with whether it is a
    /// keyframe.
    pub fn push(&mut self, chunk: &[u8]) -> (out: Vec<(bool, Vec<u8>)>)
        ensures
            units_view(out@) == split(old(self)@ + chunk@).0,
            final(self)@ == split(old(self)@ + chunk@).1,
    {
        self.buf.extend_from_slice(chunk);
        assert(self.buf@ =~= old(self)@ + chunk@);
        let (out, consumed_up_to) = cut_units(self.buf.as_slice());
        if consumed_up_to > 0 {
            let rest = self.buf.split_off(consumed_up_to);
            self.buf = rest;
        }
        proof {
            let d = old(self)@ + chunk@;
            if consumed_up_to == 0 {
                assert(d.subrange(0, d.len() as int) =~= d);
            }
        }
        out
    }
}

/// The access units of a whole stream: the complete ones, and what lies behind them from its first
/// start code on.
pub open spec fn access_units(d: Seq<u8>) -> Seq<Seq<u8>> {
    let (units, rest) = split(d);
    let whole = units.map_values(|u: (bool, Seq<u8>)| u.1);
    if codes(rest).len() > 0 {
        whole.push(rest.subrange(codes(rest)[0].0, rest.len() as int))
    } else {
        whole
    }
}

/// Splits a whole stream into access units; what comes behind the last complete one is the last.
pub fn split_access_units(data: &[u8]) -> (aus: Vec<Vec<u8>>)
    ensures
        aus@.map_values(|u: Vec<u8>| u@) == access_units(data@),
{
    let (units, consumed) = cut_units(data);
    let ghost flat = units_view(units@).map_values(|u: (bool, Seq<u8>)| u.1);
    let ghost g = |u: Vec<u8>| u@;
    let mut aus: Vec<Vec<u8>> = Vec::new();
    let mut i: usize = 0;
    while i < units.len()
        invariant
            i <= units.len(),
            flat == units_view(units@).map_values(|u: (bool, Seq<u8>)| u.1),
            g == |u: Vec<u8>| u@,
            aus@.len() == i,
            forall|j: int| 0 <= j < i ==> (#[trigger] aus@[j])@ == flat[j],
        decreases units.len() - i,
    {
        let unit = vstd::slice::slice_to_vec(units[i].1.as_slice());
        assert(unit@ == flat[i as int]);
        aus.push(unit);
        i = i + 1;
    }
    assert(aus@.map_values(g) =~= flat);
    let ghost before = aus@;
    let rest = vstd::slice::slice_subrange(data, consumed, data.len());
    let starts = find_start_codes(rest);
    let ghost f = |c: (usize, usize)| (c.0 as int, c.1 as int);
    if starts.len() > 0 {
        assert(starts@.map_values(f)[0] == f(starts@[0]));
        proof {
            lemma_codes_sound(rest@, rest@.len() as int);
        }
        let last = vstd::slice::slice_to_vec(vstd::slice::slice_subrange(rest, starts[0].0, rest.len()));
        aus.push(last);
        assert(aus@.map_values(g) =~= before.map_values(g).push(last@));
    }
    aus
}

/// A unit as it is served to a client that only decodes: four bytes of length, most significant
/// first, and the unit.
pub fn served(unit: &[u8]) -> (res: Vec<u8>)
    ensures
        res@ == bytes::be(unit@.len(), 4) + unit@,
{
    let mut out: Vec<u8> = Vec::new();
    bytes::push_be(&mut out, unit.len() as u64, 4);
    out.extend_from_slice(unit);
    assert(out@ =~= bytes::be(unit@.len(), 4) + unit@);
    out
}

// ---- laws ----

/// The start codes are those that stand in the bytes: two zeros and a one, unless a zero stands in
/// front of them, and three zeros and a one. They are found all, and nothing else is, and they come
/// in the order in which they stand.
pub proof fn start_codes_are_found_where_they_stand(d: Seq<u8>, p: int, n: int)
    ensures
        codes(d).contains((p, n)) <==> {
            ||| n == 3 && 0 <= p && p + 3 <= d.len() && d.subrange(p, p + 3) == seq![0u8, 0, 1] && (p
                == 0 || d[p - 1] != 0)
            ||| n == 4 && 0 <= p && p + 4 <= d.len() && d.subrange(p, p + 4) == seq![0u8, 0, 0, 1]
        },
        forall|i: int, j: int|
            #![trigger codes(d)[i], codes(d)[j]]
            0 <= i < j < codes(d).len() ==> codes(d)[i].0 < codes(d)[j].0,
{
    let s = codes(d);
    lemma_codes_sound(d, d.len() as int);
    lemma_codes_apart(d, d.len() as int);
    lemma_codes_complete(d, d.len() as int, p);
    if 0 <= p && p + 3 <= d.len() {
        assert(d.subrange(p, p + 3) =~= seq![d[p], d[p + 1], d[p + 2]]);
        let three = seq![0u8, 0, 1];
        assert(three[0] == 0 && three[1] == 0 && three[2] == 1);
        if d.subrange(p, p + 3) == three {
            assert(d.subrange(p, p + 3)[0] == 0 && d.subrange(p, p + 3)[1] == 0 && d.subrange(
                p,
                p + 3,
            )[2] == 1);
        }
    }
    if 0 <= p && p + 4 <= d.len() {
        assert(d.subrange(p, p + 4) =~= seq![d[p], d[p + 1], d[p + 2], d[p + 3]]);
        let four = seq![0u8, 0, 0, 1];
        assert(four[0] == 0 && four[1] == 0 && four[2] == 0 && four[3] == 1);
        if d.subrange(p, p + 4) == four {
            let t = d.subrange(p, p + 4);
            assert(t[0] == 0 && t[1] == 0 && t[2] == 0 && t[3] == 1);
        }
    }
    if s.contains((p, n)) {
        let i = choose|i: int| 0 <= i < s.len() && s[i] == (p, n);
        assert(n == code_len(d, p) && n > 0);
    }
}

proof fn lemma_codes_complete(d: Seq<u8>, k: int, p: int)
    ensures
        0 <= p < k && code_len(d, p) > 0 ==> codes_below(d, k).contains((p, code_len(d, p))),
    decreases k,
{
    if 0 <= p < k && code_len(d, p) > 0 {
        let t = codes_below(d, k);
        if p == k - 1 {
            assert(t[t.len() - 1] == (p, code_len(d, p)));
        } else {
            lemma_codes_complete(d, k - 1, p);
            let s = codes_below(d, k - 1);
            let i = choose|i: int| 0 <= i < s.len() && s[i] == (p, code_len(d, p));
            assert(t[i] == s[i]);
        }
    }
}

/// The codes of a piece between two start codes are those of the data.
proof fn lemma_piece(d: Seq<u8>, b: int, e: int, k: int)
    requires
        0 <= b <= e <= d.len(),
        0 <= k <= e - b,
        code_len(d, b) > 0,
        code_len(d, e) > 0,
    ensures
        codes_below(d, b + k) == codes_below(d, b) + codes_below(d.subrange(b, e), k).map_values(
            |c: (int, int)| (c.0 + b, c.1),
        ),
    decreases k,
{
    let u = d.subrange(b, e);
    let f = |c: (int, int)| (c.0 + b, c.1);
    if k == 0 {
        assert(codes_below(u, k).map_values(f) =~= Seq::empty());
        assert(codes_below(d, b) + Seq::<(int, int)>::empty() =~= codes_below(d, b));
    } else {
        lemma_piece(d, b, e, k - 1);
        assert(code_len(d, b + (k - 1)) == code_len(u, k - 1));
        assert(codes_below(d, b + k) =~= codes_below(d, b) + codes_below(u, k).map_values(f));
    }
}

/// The type of a NAL unit is what is left of its first byte when it is divided by 32, whatever the
/// byte is and wherever it stands.
pub proof fn the_type_is_in_the_low_five_bits(d: Seq<u8>, p: int, n: int)
    requires
        codes(d).contains((p, n)),
        p + n < d.len(),
    ensures
        nal_type(d, (p, n)) == d[p + n] % 32,
        is_slice(d, (p, n)) <==> d[p + n] % 32 == 1 || d[p + n] % 32 == 5,
{
    start_codes_are_found_where_they_stand(d, p, n);
    let v = d[p + n];
    assert(v & 0x1f == v % 32) by (bit_vector);
}

/// Whether a unit is one picture: it begins with a start code, the NAL unit behind its last one is a
/// slice, of type 5 in a keyframe and else of type 1, and no other is. The type is what is left of
/// the first byte when it is divided by 32.
pub open spec fn is_one_picture(keyframe: bool, u: Seq<u8>) -> bool {
    let s = codes(u);
    let last = s.last().0 + s.last().1;
    &&& s.len() > 0
    &&& s[0].0 == 0
    &&& last < u.len()
    &&& u[last] % 32 == (if keyframe {
        5int
    } else {
        1
    })
    &&& forall|i: int|
        0 <= i < s.len() - 1 ==> (#[trigger] s[i]).0 + s[i].1 < u.len() && u[s[i].0 + s[i].1] % 32
            != 1 && u[s[i].0 + s[i].1] % 32 != 5
}

proof fn lemma_first_unit_is_one_picture(d: Seq<u8>)
    requires
        first_unit(d) is Some,
    ensures
        ({
            let (key, b, e) = first_unit(d).unwrap();
            is_one_picture(key, d.subrange(b, e))
        }),
{
    let (key, b, e) = first_unit(d).unwrap();
    let s = codes(d);
    let n = d.len() as int;
    lemma_first_unit(d);
    lemma_codes_sound(d, n);
    lemma_codes_apart(d, n);
    lemma_first_closed_slice(d, s, 0);
    let i = first_closed_slice(d, s, 0).unwrap();
    let u = d.subrange(b, e);
    lemma_piece(d, b, e, e - b);
    lemma_codes_prefix(d, b, n);
    lemma_codes_prefix(d, e, n);
    lemma_codes_sound(d, b);
    lemma_codes_sound(d, e);
    let low = codes_below(d, b);
    let mid = codes_below(d, e);
    if low.len() > 0 {
        assert(s.subrange(0, low.len() as int)[0] == low[0]);
    }
    assert(low.len() == 0);
    if mid.len() > i + 1 {
        assert(s.subrange(0, mid.len() as int)[i + 1] == mid[i + 1]);
    }
    if mid.len() < i + 1 {
        let m = mid.len() as int;
        assert(e <= s[m].0);
        assert(s[m].0 + s[m].1 <= s[i + 1].0);
    }
    assert(mid.len() == i + 1);
    let shifted = codes(u).map_values(|c: (int, int)| (c.0 + b, c.1));
    assert(mid =~= shifted);
    assert forall|j: int| 0 <= j <= i implies #[trigger] codes(u)[j] == (s[j].0 - b, s[j].1) by {
        assert(s.subrange(0, mid.len() as int)[j] == mid[j]);
        assert(mid[j] == shifted[j]);
    }
    assert forall|v: u8| #[trigger] (v & 0x1f) == v % 32 by {
        assert(v & 0x1f == v % 32) by (bit_vector);
    }
    assert forall|j: int| 0 <= j < i implies (#[trigger] codes(u)[j]).0 + codes(u)[j].1 < u.len()
        && u[codes(u)[j].0 + codes(u)[j].1] % 32 != 1 && u[codes(u)[j].0 + codes(u)[j].1] % 32
        != 5 by {
        let at = s[j].0 + s[j].1;
        assert(at <= s[j + 1].0);
        assert(s[j + 1].0 + s[j + 1].1 <= s[i + 1].0);
        assert(!is_slice(d, s[j]));
        assert(d[at] & 0x1f == d[at] % 32);
        assert(u[at - b] == d[at]);
    }
    let at = s[i].0 + s[i].1;
    assert(at <= s[i + 1].0);
    assert(d[at] & 0x1f == d[at] % 32);
    assert(d[e] == 0);
    assert(u[at - b] == d[at]);
    assert(codes(u).last() == codes(u)[i]);
}

/// Each unit that is handed out is one picture, whole, and a keyframe exactly where it says so.
pub proof fn every_unit_is_one_picture(d: Seq<u8>, i: int)
    requires
        0 <= i < split(d).0.len(),
    ensures
        is_one_picture(split(d).0[i].0, split(d).0[i].1),
    decreases d.len(),
{
    lemma_first_unit(d);
    if let Some((key, b, e)) = first_unit(d) {
        let rest = d.subrange(e, d.len() as int);
        lemma_first_unit_is_one_picture(d);
        if i > 0 {
            every_unit_is_one_picture(rest, i - 1);
            assert(split(d).0[i] == split(rest).0[i - 1]);
        }
    }
}

/// No picture is held back once another start code has followed it: among the bytes that are kept, no
/// NAL unit but the last is a slice.
pub proof fn no_whole_picture_is_held_back(d: Seq<u8>, i: int)
    requires
        0 <= i < codes(split(d).1).len() - 1,
    ensures
        ({
            let r = split(d).1;
            let at = codes(r)[i].0 + codes(r)[i].1;
            at < r.len() && r[at] % 32 != 1 && r[at] % 32 != 5
        }),
    decreases d.len(),
{
    lemma_first_unit(d);
    match first_unit(d) {
        Some((key, b, e)) => {
            no_whole_picture_is_held_back(d.subrange(e, d.len() as int), i);
        },
        None => {
            let s = codes(d);
            lemma_codes_sound(d, d.len() as int);
            lemma_codes_apart(d, d.len() as int);
            lemma_first_closed_slice(d, s, 0);
            let at = s[i].0 + s[i].1;
            assert(at <= s[i + 1].0);
            assert(!is_slice(d, s[i]));
            let v = d[at];
            assert(v & 0x1f == v % 32) by (bit_vector);
        },
    }
}

/// A whole stream is split into the pictures that would be handed out as it arrives, and, where
/// something is left with a start code in it, into that.
pub proof fn a_whole_stream_is_split_as_it_would_arrive(d: Seq<u8>)
    ensures
        ({
            let (units, rest) = split(d);
            let all = access_units(d);
            &&& forall|i: int| 0 <= i < units.len() ==> #[trigger] all[i] == units[i].1
            &&& codes(rest).len() == 0 ==> all.len() == units.len()
            &&& codes(rest).len() > 0 ==> all.len() == units.len() + 1 && all.last()
                == rest.subrange(codes(rest)[0].0, rest.len() as int)
        }),
{
}

/// Every unit that a splitter hands out for a chunk is one picture, and a keyframe where it says so.
pub proof fn a_splitter_hands_out_whole_pictures(
    splitter: &mut AnnexBSplitter,
    chunk: &[u8],
    out: Vec<(bool, Vec<u8>)>,
    i: int,
)
    requires
        call_ensures(AnnexBSplitter::push, (splitter, chunk), out),
        0 <= i < out@.len(),
    ensures
        is_one_picture(out@[i].0, out@[i].1@),
{
    let d = old(splitter)@ + chunk@;
    assert(units_view(out@)[i] == split(d).0[i]);
    every_unit_is_one_picture(d, i);
}

/// A unit is served with the number of its bytes in front, in four bytes.
pub proof fn a_unit_is_served_behind_its_length(unit: &[u8], res: Vec<u8>)
    requires
        call_ensures(served, (unit,), res),
    ensures
        res@.len() == 4 + unit@.len(),
        res@.skip(4) == unit@,
        unit@.len() < 0x1_0000_0000 ==> bytes::be_value(res@.take(4)) == unit@.len(),
{
    bytes::lemma_be_len(unit@.len(), 4);
    assert(res@.skip(4) =~= unit@);
    assert(res@.take(4) =~= bytes::be(unit@.len(), 4));
    bytes::lemma_pow256();
    if unit@.len() < 0x1_0000_0000 {
        bytes::be_round_trip(unit@.len(), 4);
    }
}

/// The start codes that are found are those that stand in the data, with their lengths, in order.
pub proof fn found_start_codes_stand_in_the_data(data: &[u8], out: Vec<(usize, usize)>, i: int)
    requires
        call_ensures(find_start_codes, (data,), out),
        0 <= i < out@.len(),
    ensures
        out@.len() == codes(data@).len(),
        ({
            let (p, n) = (out@[i].0 as int, out@[i].1 as int);
            ||| n == 3 && p + 3 <= data@.len() && data@.subrange(p, p + 3) == seq![0u8, 0, 1] && (p == 0
                || data@[p - 1] != 0)
            ||| n == 4 && p + 4 <= data@.len() && data@.subrange(p, p + 4) == seq![0u8, 0, 0, 1]
        }),
        i > 0 ==> out@[i - 1].0 < out@[i].0,
{
    let f = |c: (usize, usize)| (c.0 as int, c.1 as int);
    let s = codes(data@);
    let v = out@.map_values(f);
    assert(v.len() == out@.len());
    assert(v[i] == f(out@[i]));
    assert(s.contains(s[i]));
    start_codes_are_found_where_they_stand(data@, s[i].0, s[i].1);
    if i > 0 {
        assert(v[i - 1] == f(out@[i - 1]));
    }
}

/// A whole stream is handed out picture by picture, as it would be while it arrives, and then what is
/// left.
pub proof fn a_whole_stream_is_handed_out(data: &[u8], aus: Vec<Vec<u8>>, i: int)
    requires
        call_ensures(split_access_units, (data,), aus),
        0 <= i < split(data@).0.len(),
    ensures
        aus@.len() == access_units(data@).len(),
        i < aus@.len(),
        aus@[i]@ == split(data@).0[i].1,
        is_one_picture(split(data@).0[i].0, aus@[i]@),
{
    let v = aus@.map_values(|u: Vec<u8>| u@);
    assert(v.len() == aus@.len());
    a_whole_stream_is_split_as_it_would_arrive(data@);
    every_unit_is_one_picture(data@, i);
    assert(access_units(data@)[i] == split(data@).0[i].1);
    assert(v[i] == aus@[i]@);
}

} // verus!
