//! The editor's own record in the store: the current version, kept as eight big-endian bytes.

use vstd::prelude::*;

verus! {

/// The key under which the current version is stored.
pub const CURRENT_VERSION_KEY: &'static str = "current_version";

/// The value of big-endian bytes.
pub open spec fn be_value(b: Seq<u8>) -> int
    decreases b.len(),
{
    if b.len() == 0 {
        0
    } else {
        be_value(b.drop_last()) * 256 + b.last()
    }
}

/// `256` to the power `n`.
pub open spec fn pow256(n: int) -> int
    decreases n,
{
    if n <= 0 {
        1
    } else {
        256 * pow256(n - 1)
    }
}

/// What was stored as the current version cannot be read.
#[derive(Clone, Copy, Debug, PartialEq, Eq, Structural)]
pub enum DbError {
    /// The stored value is not eight bytes long.
    MalformedCurrentVersion,
}

proof fn lemma_be_value_bound(b: Seq<u8>)
    ensures
        0 <= be_value(b) < pow256(b.len() as int),
    decreases b.len(),
{
    if b.len() > 0 {
        lemma_be_value_bound(b.drop_last());
        let v = be_value(b.drop_last());
        let p = pow256(b.len() - 1);
        assert(v * 256 + b.last() < p * 256) by (nonlinear_arith)
            requires 0 <= v < p, 0 <= b.last() < 256;
        assert(0 <= v * 256) by (nonlinear_arith)
            requires 0 <= v;
    }
}

/// Reads a `u64` from eight big-endian bytes.
pub fn u64_from_be_slice(s: &[u8]) -> (r: u64)
    requires
        s@.len() == 8,
    ensures
        r == be_value(s@),
{
    let mut r: u64 = 0;
    let mut i: usize = 0;
    while i < 8
        invariant
            0 <= i <= 8,
            s@.len() == 8,
            r == be_value(s@.subrange(0, i as int)),
        decreases 8 - i,
    {
        proof {
            lemma_be_value_bound(s@.subrange(0, i as int));
            assert(pow256(i as int) <= pow256(7)) by {
                lemma_pow256_mono(i as int, 7);
            }
            assert(r * 256 + 255 <= pow256(8) - 1) by (nonlinear_arith)
                requires r < pow256(i as int), pow256(i as int) <= pow256(7), pow256(8) == 256 * pow256(7);
            lemma_pow256_8();
        }
        r = r * 256 + s[i] as u64;
        assert(s@.subrange(0, i + 1).drop_last() =~= s@.subrange(0, i as int));
        i = i + 1;
    }
    assert(s@.subrange(0, 8) =~= s@);
    r
}

proof fn lemma_pow256_8()
    ensures
        pow256(7) == 0x100_0000_0000_0000,
        pow256(8) == 0x1_0000_0000_0000_0000,
{
    assert(pow256(0) == 1);
    assert(pow256(1) == 0x100);
    assert(pow256(2) == 0x1_0000);
    assert(pow256(3) == 0x100_0000);
    assert(pow256(4) == 0x1_0000_0000);
    assert(pow256(5) == 0x100_0000_0000);
    assert(pow256(6) == 0x1_0000_0000_0000);
    assert(pow256(7) == 0x100_0000_0000_0000);
}

proof fn lemma_pow256_mono(a: int, b: int)
    requires
        0 <= a <= b,
    ensures
        1 <= pow256(a) <= pow256(b),
    decreases b,
{
    if b > 0 {
        if a < b {
            lemma_pow256_mono(a, b - 1);
        } else {
            lemma_pow256_mono(a - 1, b - 1);
        }
    }
}

/// The eight big-endian bytes of `v`.
pub fn u64_to_be_bytes(v: u64) -> (r: Vec<u8>)
    ensures
        r@.len() == 8,
        be_value(r@) == v,
{
    let mut r: Vec<u8> = Vec::new();
    let mut i: usize = 0;
    let mut rest: u64 = v;
    let mut digits: Vec<u8> = Vec::new();
    // Least significant byte first, then reversed.
    while i < 8
        invariant
            0 <= i <= 8,
            digits@.len() == i,
            v == rest as int * pow256(i as int) + be_value(digits@.reverse()),
        decreases 8 - i,
    {
        let d = (rest % 256) as u8;
        let ghost old_digits = digits@;
        let ghost old_rest = rest;
        rest = rest / 256;
        digits.push(d);
        proof {
            assert(old_rest == rest * 256 + d);
            assert(digits@.reverse() =~= seq![d].add(old_digits.reverse()));
            lemma_be_value_prepend(d, old_digits.reverse());
            lemma_be_value_bound(old_digits.reverse());
            assert(pow256(i as int + 1) == 256 * pow256(i as int));
            assert(v == rest * pow256(i + 1) + be_value(digits@.reverse())) by (nonlinear_arith)
                requires
                    v == old_rest * pow256(i as int) + be_value(old_digits.reverse()),
                    old_rest == rest * 256 + d,
                    pow256(i + 1) == 256 * pow256(i as int),
                    be_value(digits@.reverse()) == d * pow256(i as int) + be_value(old_digits.reverse());
        }
        i = i + 1;
    }
    proof {
        lemma_be_value_bound(digits@.reverse());
        lemma_pow256_8();
        assert(rest == 0) by (nonlinear_arith)
            requires v == rest * pow256(8) + be_value(digits@.reverse()), 0 <= be_value(digits@.reverse()),
                pow256(8) == 0x1_0000_0000_0000_0000, v < 0x1_0000_0000_0000_0000, rest >= 0;
    }
    let mut j: usize = 8;
    while j > 0
        invariant
            0 <= j <= 8,
            digits@.len() == 8,
            r@ == digits@.reverse().subrange(0, 8 - j as int),
        decreases j,
    {
        j = j - 1;
        r.push(digits[j]);
        assert(r@ =~= digits@.reverse().subrange(0, 8 - j as int));
    }
    assert(r@ =~= digits@.reverse());
    r
}

proof fn lemma_be_value_prepend(d: u8, b: Seq<u8>)
    ensures
        be_value(seq![d].add(b)) == d * pow256(b.len() as int) + be_value(b),
    decreases b.len(),
{
    if b.len() == 0 {
        let s = seq![d].add(b);
        assert(s.drop_last() =~= Seq::<u8>::empty());
        assert(s.last() == d);
        assert(be_value(s) == be_value(s.drop_last()) * 256 + d);
        assert(be_value(Seq::<u8>::empty()) == 0);
        assert(pow256(0) == 1);
    } else {
        let s = seq![d].add(b);
        assert(s.drop_last() =~= seq![d].add(b.drop_last()));
        assert(s.last() == b.last());
        lemma_be_value_prepend(d, b.drop_last());
        assert(pow256(b.len() as int) == 256 * pow256(b.len() - 1));
        assert(be_value(s) == (d * pow256(b.len() - 1) + be_value(b.drop_last())) * 256 + b.last());
        assert((d * pow256(b.len() - 1) + be_value(b.drop_last())) * 256 + b.last()
            == d * (256 * pow256(b.len() - 1)) + (be_value(b.drop_last()) * 256 + b.last())) by (nonlinear_arith);
    }
}

/// The current version as stored: `None` when none was stored yet, an error when what was
/// stored is not eight bytes long.
pub fn decode_current_version(stored: Option<&[u8]>) -> (r: Result<Option<u64>, DbError>)
    ensures
        match stored {
            None => r == Ok::<Option<u64>, DbError>(None),
            Some(b) => if b@.len() == 8 {
                r == Ok::<Option<u64>, DbError>(Some(be_value(b@) as u64))
            } else {
                r == Err::<Option<u64>, DbError>(DbError::MalformedCurrentVersion)
            },
        },
{
    match stored {
        None => Ok(None),
        Some(b) => {
            if b.len() == 8 {
                Ok(Some(u64_from_be_slice(b)))
            } else {
                Err(DbError::MalformedCurrentVersion)
            }
        },
    }
}

/// The bytes to store for current version `v`.
pub fn encode_current_version(v: u64) -> (r: Vec<u8>)
    ensures
        r@.len() == 8,
        be_value(r@) == v,
{
    u64_to_be_bytes(v)
}

} // verus!
