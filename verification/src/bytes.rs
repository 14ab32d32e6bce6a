//! Big-endian integers in byte sequences.
use vstd::prelude::*;

verus! {

/// The last `n` base-256 digits of `v`, most significant first.
pub open spec fn be(v: nat, n: nat) -> Seq<u8>
    decreases n,
{
    if n == 0 {
        Seq::empty()
    } else {
        be(v / 256, (n - 1) as nat).push((v % 256) as u8)
    }
}

/// The number that a sequence of base-256 digits, most significant first, stands for.
pub open spec fn be_value(s: Seq<u8>) -> nat
    decreases s.len(),
{
    if s.len() == 0 {
        0
    } else {
        be_value(s.drop_last()) * 256 + s.last() as nat
    }
}

/// How many values `n` bytes can take.
pub open spec fn pow256(n: nat) -> nat
    decreases n,
{
    if n == 0 {
        1
    } else {
        256 * pow256((n - 1) as nat)
    }
}

/// Reading digits back gives the number, where they were enough to hold it.
pub proof fn be_round_trip(v: nat, n: nat)
    requires
        v < pow256(n),
    ensures
        be(v, n).len() == n,
        be_value(be(v, n)) == v,
    decreases n,
{
    if n > 0 {
        be_round_trip(v / 256, (n - 1) as nat);
        assert(be(v, n).drop_last() =~= be(v / 256, (n - 1) as nat));
    }
}

/// The digits of the number that some bytes stand for are those bytes.
pub proof fn be_value_round_trip(s: Seq<u8>)
    ensures
        be_value(s) < pow256(s.len()),
        be(be_value(s), s.len()) == s,
    decreases s.len(),
{
    if s.len() > 0 {
        be_value_round_trip(s.drop_last());
        assert(be(be_value(s), s.len()) =~= s);
    }
}

pub proof fn lemma_be_len(v: nat, n: nat)
    ensures
        be(v, n).len() == n,
    decreases n,
{
    if n > 0 {
        lemma_be_len(v / 256, (n - 1) as nat);
    }
}

pub proof fn lemma_pow256()
    ensures
        pow256(2) == 0x1_0000,
        pow256(4) == 0x1_0000_0000,
        pow256(8) == 0x1_0000_0000_0000_0000,
{
    reveal_with_fuel(pow256, 9);
}

/// Appends the last `n` base-256 digits of `v`.
pub(crate) fn push_be(buf: &mut Vec<u8>, v: u64, n: u8)
    ensures
        final(buf)@ == old(buf)@ + be(v as nat, n as nat),
    decreases n,
{
    if n > 0 {
        push_be(buf, v / 256, n - 1);
        buf.push((v % 256) as u8);
        assert(buf@ =~= old(buf)@ + be(v as nat, n as nat));
    } else {
        assert(buf@ =~= old(buf)@ + be(v as nat, n as nat));
    }
}

/// The number that at most eight bytes stand for.
pub(crate) fn read_be(s: &[u8]) -> (v: u64)
    requires
        s@.len() <= 8,
    ensures
        v == be_value(s@),
        v < pow256(s@.len()),
{
    let mut v: u64 = 0;
    let mut i: usize = 0;
    while i < s.len()
        invariant
            i <= s.len() <= 8,
            v == be_value(s@.take(i as int)),
            v < pow256(i as nat),
        decreases s.len() - i,
    {
        proof {
            assert(s@.take(i + 1).drop_last() =~= s@.take(i as int));
            lemma_pow256();
            lemma_pow256_monotonic(i as nat, 7);
            reveal_with_fuel(pow256, 9);
        }
        v = v * 256 + s[i] as u64;
        i = i + 1;
    }
    assert(s@.take(i as int) =~= s@);
    v
}

proof fn lemma_pow256_monotonic(m: nat, n: nat)
    requires
        m <= n,
    ensures
        pow256(m) <= pow256(n),
    decreases n,
{
    if m < n {
        lemma_pow256_monotonic(m, (n - 1) as nat);
    }
}

/// Takes the first `n` bytes off a slice.
pub(crate) fn take_bytes<'a>(p: &mut &'a [u8], n: usize) -> (res: Option<&'a [u8]>)
    ensures
        n <= old(p)@.len() ==> res is Some && res.unwrap()@ == old(p)@.take(n as int) && final(p)@
            == old(p)@.skip(n as int),
        n > old(p)@.len() ==> res is None && final(p)@ == old(p)@,
{
    let whole: &'a [u8] = *p;
    if whole.len() < n {
        return None;
    }
    let (head, rest) = whole.split_at(n);
    *p = rest;
    assert(head@ =~= old(p)@.take(n as int));
    assert(rest@ =~= old(p)@.skip(n as int));
    Some(head)
}

/// The most significant byte comes first: of four bytes, the first counts whole multiples of 2 to the
/// 24th, and the last counts ones. A number of two or of eight bytes is built in the same way.
pub proof fn the_most_significant_byte_comes_first(v: nat)
    ensures
        be(v, 2) == seq![(v / 0x100 % 256) as u8, (v % 256) as u8],
        be(v, 4) == seq![
            (v / 0x100_0000 % 256) as u8,
            (v / 0x1_0000 % 256) as u8,
            (v / 0x100 % 256) as u8,
            (v % 256) as u8,
        ],
        be(v, 8) == be(v / 0x1_0000_0000, 4) + be(v, 4),
{
    reveal_with_fuel(be, 9);
    assert(v / 256 / 256 == v / 0x1_0000);
    assert(v / 0x1_0000 / 256 == v / 0x100_0000);
    assert(v / 0x100_0000 / 256 == v / 0x1_0000_0000);
    assert(be(v, 2) =~= seq![(v / 0x100 % 256) as u8, (v % 256) as u8]);
    assert(be(v, 4) =~= seq![
        (v / 0x100_0000 % 256) as u8,
        (v / 0x1_0000 % 256) as u8,
        (v / 0x100 % 256) as u8,
        (v % 256) as u8,
    ]);
    assert(be(v, 8) =~= be(v / 0x1_0000_0000, 4) + be(v, 4));
}

/// The number that bytes stand for counts the first of them most.
pub proof fn the_first_byte_counts_most(a: u8, b: u8, c: u8, d: u8)
    ensures
        be_value(seq![a]) == a,
        be_value(seq![a, b]) == a * 0x100 + b,
        be_value(seq![a, b, c, d]) == a * 0x100_0000 + b * 0x1_0000 + c * 0x100 + d,
{
    reveal_with_fuel(be_value, 5);
    assert(seq![a, b, c, d].drop_last() =~= seq![a, b, c]);
    assert(seq![a, b, c].drop_last() =~= seq![a, b]);
    assert(seq![a, b].drop_last() =~= seq![a]);
    assert(seq![a].drop_last() =~= Seq::<u8>::empty());
}

} // verus!
