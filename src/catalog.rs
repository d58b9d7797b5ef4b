use std::collections::hash_map::DefaultHasher;
use std::hash::Hasher;
use vstd::bytes::*;
use vstd::prelude::*;
use vstd::std_specs::hash::*;
use vstd::string::*;

verus! {

/// Number of monomial terms in each equation: 1, x, y, z, x², y², z², xy, xz, yz.
pub const NTERMS: usize = 10;

/// Number of coefficients of a system: three equations of `NTERMS` terms.
pub const NCOEFFS: usize = 30;

/// A coefficient vector given by the bit patterns of its 30 values.
pub type CoeffBits = [u64; NCOEFFS];

/// What the hasher is fed for a coefficient vector: the eight little-endian
/// bytes of each bit pattern, one write per coefficient, in order.
pub open spec fn hash_input(bits: Seq<u64>) -> Seq<Seq<u8>> {
    bits.map_values(|b: u64| spec_u64_to_le_bytes(b))
}

/// The identifier of a coefficient vector.
pub open spec fn coeff_id(bits: Seq<u64>) -> u64 {
    DefaultHasher::spec_finish(hash_input(bits))
}

/// Order-sensitive hash of the bit patterns of all coefficients.
pub fn coeff_hash(bits: &CoeffBits) -> (r: u64)
    ensures
        r == coeff_id(bits@),
{
    let mut h = DefaultHasher::new();
    let mut i: usize = 0;
    while i < NCOEFFS
        invariant
            0 <= i <= NCOEFFS,
            bits@.len() == NCOEFFS,
            h@ == hash_input(bits@.take(i as int)),
        decreases NCOEFFS - i,
    {
        let bytes = u64_to_le_bytes(bits[i]);
        h.write(bytes.as_slice());
        proof {
            assert(bits@.take(i as int + 1) == bits@.take(i as int).push(bits@[i as int]));
            assert(hash_input(bits@.take(i as int + 1)) =~= hash_input(bits@.take(i as int)).push(
                spec_u64_to_le_bytes(bits@[i as int]),
            ));
        }
        i += 1;
    }
    proof {
        assert(bits@.take(NCOEFFS as int) == bits@);
    }
    h.finish()
}

/// Hashing is a function of the coefficients alone: the same coefficient
/// vector always gets the same identifier.
pub proof fn lemma_hash_deterministic(a: Seq<u64>, b: Seq<u64>)
    requires
        a == b,
    ensures
        coeff_id(a) == coeff_id(b),
{
}

/// Two coefficient vectors that differ in any coefficient feed the hasher
/// different byte streams, so their identifiers differ unless the hash collides.
pub proof fn lemma_distinct_inputs(a: Seq<u64>, b: Seq<u64>, i: int)
    requires
        a.len() == NCOEFFS,
        b.len() == NCOEFFS,
        0 <= i < NCOEFFS,
        a[i] != b[i],
    ensures
        hash_input(a) != hash_input(b),
{
    lemma_auto_spec_u64_to_from_le_bytes();
    assert(hash_input(a)[i] == spec_u64_to_le_bytes(a[i]));
    assert(hash_input(b)[i] == spec_u64_to_le_bytes(b[i]));
    assert(spec_u64_from_le_bytes(spec_u64_to_le_bytes(a[i])) == a[i]);
    assert(spec_u64_from_le_bytes(spec_u64_to_le_bytes(b[i])) == b[i]);
}

/// The lowercase hexadecimal digit for `n` (below 16).
pub open spec fn hex_char(n: nat) -> char {
    if n < 10 {
        ('0' as nat + n) as char
    } else {
        ('a' as nat + n - 10) as char
    }
}

/// The `k` lowest hexadecimal digits of `x`, most significant first.
pub open spec fn hex_digits(x: nat, k: nat) -> Seq<char>
    decreases k,
{
    if k == 0 {
        Seq::empty()
    } else {
        hex_digits(x / 16, (k - 1) as nat).push(hex_char(x % 16))
    }
}

/// The catalog file name of an entry: its identifier as 16 lowercase hex
/// digits, zero-padded, followed by `.json`.
pub open spec fn file_name_of(id: u64) -> Seq<char> {
    hex_digits(id as nat, 16) + seq!['.', 'j', 's', 'o', 'n']
}

fn hex_digit_str(n: u64) -> (r: &'static str)
    requires
        n < 16,
    ensures
        r@ == seq![hex_char(n as nat)],
{
    proof {
        reveal_strlit("0");
        reveal_strlit("1");
        reveal_strlit("2");
        reveal_strlit("3");
        reveal_strlit("4");
        reveal_strlit("5");
        reveal_strlit("6");
        reveal_strlit("7");
        reveal_strlit("8");
        reveal_strlit("9");
        reveal_strlit("a");
        reveal_strlit("b");
        reveal_strlit("c");
        reveal_strlit("d");
        reveal_strlit("e");
        reveal_strlit("f");
    }
    match n {
        0 => "0",
        1 => "1",
        2 => "2",
        3 => "3",
        4 => "4",
        5 => "5",
        6 => "6",
        7 => "7",
        8 => "8",
        9 => "9",
        10 => "a",
        11 => "b",
        12 => "c",
        13 => "d",
        14 => "e",
        _ => "f",
    }
}

fn append_hex(s: &mut String, x: u64, k: usize)
    requires
        k <= 16,
    ensures
        final(s)@ == old(s)@ + hex_digits(x as nat, k as nat),
    decreases k,
{
    if k > 0 {
        append_hex(s, x / 16, k - 1);
        s.append(hex_digit_str(x % 16));
        proof {
            assert(hex_digits(x as nat, k as nat) == hex_digits((x / 16) as nat, (k - 1) as nat).push(
                hex_char((x % 16) as nat),
            ));
            assert(s@ =~= old(s)@ + hex_digits(x as nat, k as nat));
        }
    } else {
        assert(hex_digits(x as nat, 0) =~= Seq::<char>::empty());
        assert(s@ =~= old(s)@ + hex_digits(x as nat, k as nat));
    }
}

/// The name of the file that holds the catalog entry with identifier `id`.
pub fn entry_file_name(id: u64) -> (r: String)
    ensures
        r@ == file_name_of(id),
{
    let mut s = String::new();
    append_hex(&mut s, id, 16);
    s.append(".json");
    proof {
        reveal_strlit(".json");
        assert(s@ =~= file_name_of(id));
    }
    s
}

} // verus!
