//! Codec for fixed-length binary identifier columns: a 16-byte payload
//! read as a 128-bit unique identifier, and written back byte for byte.

use vstd::prelude::*;

verus! {

/// The value of a byte sequence read as one big-endian unsigned integer.
pub open spec fn be_value(b: Seq<u8>) -> nat
    decreases b.len(),
{
    if b.len() == 0 {
        0
    } else {
        (be_value(b.drop_last()) * 256 + b.last()) as nat
    }
}

/// The `n`-byte big-endian encoding of `v` (modulo 256^n).
pub open spec fn be_bytes(v: nat, n: nat) -> Seq<u8>
    decreases n,
{
    if n == 0 {
        Seq::empty()
    } else {
        be_bytes(v / 256, (n - 1) as nat).push((v % 256) as u8)
    }
}

/// 256 raised to the power `n`: the number of distinct `n`-byte payloads.
pub open spec fn pow256(n: nat) -> nat
    decreases n,
{
    if n == 0 {
        1
    } else {
        256 * pow256((n - 1) as nat)
    }
}

/// An `n`-byte payload always reads as a value below 256^n.
pub proof fn lemma_be_value_bound(b: Seq<u8>)
    ensures
        be_value(b) < pow256(b.len()),
    decreases b.len(),
{
    if b.len() > 0 {
        lemma_be_value_bound(b.drop_last());
    }
}

/// 256^n does not shrink as `n` grows.
pub proof fn lemma_pow256_monotonic(m: nat, n: nat)
    requires
        m <= n,
    ensures
        pow256(m) <= pow256(n),
    decreases n,
{
    if m < n {
        lemma_pow256_monotonic(m, (n - 1) as nat);
        assert(pow256(n) == 256 * pow256((n - 1) as nat));
        assert(pow256((n - 1) as nat) <= 256 * pow256((n - 1) as nat)) by (nonlinear_arith)
            requires
                pow256((n - 1) as nat) >= 0,
        ;
    }
}

/// The encoding of an `n`-byte value has exactly `n` bytes.
pub proof fn lemma_be_bytes_len(v: nat, n: nat)
    ensures
        be_bytes(v, n).len() == n,
    decreases n,
{
    if n > 0 {
        lemma_be_bytes_len(v / 256, (n - 1) as nat);
    }
}

/// Re-encoding the value read from a payload reproduces the payload
/// exactly: the byte-level round trip of the identifier codec.
pub proof fn lemma_be_bytes_of_value(b: Seq<u8>)
    ensures
        be_bytes(be_value(b), b.len()) == b,
    decreases b.len(),
{
    if b.len() > 0 {
        let a = be_value(b.drop_last());
        let c = b.last() as nat;
        lemma_be_bytes_of_value(b.drop_last());
        assert((a * 256 + c) % 256 == c && (a * 256 + c) / 256 == a) by (nonlinear_arith)
            requires
                0 <= c < 256 && 0 <= a,
        ;
        assert(be_bytes(be_value(b), b.len()) =~= b);
    }
}

/// Reading back an `n`-byte encoding yields the encoded value, for any
/// value that fits in `n` bytes: the value-level round trip.
pub proof fn lemma_be_value_of_bytes(v: nat, n: nat)
    requires
        v < pow256(n),
    ensures
        be_value(be_bytes(v, n)) == v,
    decreases n,
{
    if n > 0 {
        assert(v / 256 < pow256((n - 1) as nat) && v % 256 < 256 && 256 * (v / 256) + v % 256
            == v) by (nonlinear_arith)
            requires
                0 <= v && v < 256 * pow256((n - 1) as nat),
        ;
        lemma_be_value_of_bytes(v / 256, (n - 1) as nat);
        let enc = be_bytes(v, n);
        assert(enc.drop_last() == be_bytes(v / 256, (n - 1) as nat) && enc.last() == (v % 256) as u8);
    }
}

/// Every 16-byte payload value fits in a 128-bit identifier.
pub proof fn lemma_pow256_16()
    ensures
        pow256(16) == 0x1_0000_0000_0000_0000_0000_0000_0000_0000,
{
    reveal_with_fuel(pow256, 17);
}

/// Reads a 16-byte binary payload as a 128-bit identifier. Any payload
/// whose length is not exactly 16 bytes is refused.
pub fn identifier_from_bytes(bytes: &Vec<u8>) -> (r: Option<u128>)
    ensures
        bytes@.len() == 16 ==> r == Some((be_value(bytes@) as u128)),
        bytes@.len() != 16 ==> r is None,
{
    if bytes.len() != 16 {
        return None;
    }
    let mut acc: u128 = 0;
    let mut i: usize = 0;
    while i < 16
        invariant
            i <= 16,
            bytes@.len() == 16,
            acc == be_value(bytes@.take(i as int)),
        decreases 16 - i,
    {
        proof {
            lemma_be_value_bound(bytes@.take(i as int));
            lemma_pow256_monotonic((i + 1) as nat, 16);
            lemma_pow256_16();
            assert(bytes@.take(i as int).len() == i);
            assert(acc * 256 + 256 <= pow256((i + 1) as nat)) by (nonlinear_arith)
                requires
                    0 <= acc && acc < pow256(i as nat) && pow256((i + 1) as nat) == 256 * pow256(
                        i as nat,
                    ),
            ;
        }
        let byte = bytes[i];
        acc = acc * 256 + (byte as u128);
        proof {
            let t = bytes@.take(i + 1);
            assert(t.drop_last() =~= bytes@.take(i as int));
            assert(t.last() == bytes@[i as int]);
        }
        i = i + 1;
    }
    proof {
        assert(bytes@.take(16) =~= bytes@);
    }
    Some(acc)
}

/// Writes a 128-bit identifier back to its 16-byte binary payload.
pub fn identifier_to_bytes(id: u128) -> (r: Vec<u8>)
    ensures
        r@ == be_bytes(id as nat, 16),
        r@.len() == 16,
        be_value(r@) == id,
{
    proof {
        lemma_be_bytes_len(id as nat, 16);
        lemma_pow256_16();
        lemma_be_value_of_bytes(id as nat, 16);
    }
    be_bytes_exec(id, 16)
}

/// Produces the `n`-byte big-endian encoding of `v`, mirroring `be_bytes`.
fn be_bytes_exec(v: u128, n: usize) -> (r: Vec<u8>)
    ensures
        r@ == be_bytes(v as nat, n as nat),
    decreases n,
{
    if n == 0 {
        let r: Vec<u8> = Vec::new();
        proof {
            assert(r@ =~= be_bytes(v as nat, 0));
        }
        r
    } else {
        let mut r = be_bytes_exec(v / 256, n - 1);
        r.push((v % 256) as u8);
        r
    }
}

} // verus!
