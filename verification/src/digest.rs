//! The content hash primitive: a 64-bit digest of a byte sequence, rendered
//! as its decimal string.
use vstd::prelude::*;

verus! {

/// The 64-bit digest that the content hasher assigns to a byte sequence.
pub uninterp spec fn xxh3_of(bytes: Seq<u8>) -> u64;

/// Relies on xxhash_rust::xxh3::xxh3_64: the digest is a deterministic
/// function of the input bytes alone (seed 0, default secret).
#[verifier::external_body]
fn xxh3_64_bytes(data: &[u8]) -> (r: u64)
    ensures
        r == xxh3_of(data@),
{
    xxhash_rust::xxh3::xxh3_64(data)
}

/// The character for one decimal digit value.
pub open spec fn dec_digit_char(d: int) -> char {
    if d == 0 {
        '0'
    } else if d == 1 {
        '1'
    } else if d == 2 {
        '2'
    } else if d == 3 {
        '3'
    } else if d == 4 {
        '4'
    } else if d == 5 {
        '5'
    } else if d == 6 {
        '6'
    } else if d == 7 {
        '7'
    } else if d == 8 {
        '8'
    } else {
        '9'
    }
}

/// The decimal rendering of a number, most significant digit first, with no
/// leading zero except for the number zero itself.
pub open spec fn dec_str(n: nat) -> Seq<char>
    decreases n,
    via dec_str_decreases
{
    if n < 10 {
        seq![dec_digit_char(n as int)]
    } else {
        dec_str(n / 10).push(dec_digit_char((n % 10) as int))
    }
}

#[via_fn]
proof fn dec_str_decreases(n: nat) {
    assert(n >= 10 ==> n / 10 < n) by (nonlinear_arith);
}

/// The digest string of a byte sequence: the xxh3 digest in decimal.
pub open spec fn digest_chars(bytes: Seq<u8>) -> Seq<char> {
    dec_str(xxh3_of(bytes) as nat)
}

/// The single-character string for one decimal digit.
fn digit_str(d: u64) -> (s: &'static str)
    requires
        d < 10,
    ensures
        s@ == seq![dec_digit_char(d as int)],
{
    proof {
        reveal_strlit("0");
        reveal_strlit("1");
        reveal_strlit("2");
        reveal_strlit("3");
        reveal_strlit("4");
        reveal_strlit("5");
        reveal_strlit("6");
        reveal_strlit("7");
        reveal_strlit("8");
        reveal_strlit("9");
    }
    if d == 0 {
        "0"
    } else if d == 1 {
        "1"
    } else if d == 2 {
        "2"
    } else if d == 3 {
        "3"
    } else if d == 4 {
        "4"
    } else if d == 5 {
        "5"
    } else if d == 6 {
        "6"
    } else if d == 7 {
        "7"
    } else if d == 8 {
        "8"
    } else {
        "9"
    }
}

/// The low-order digits of a number read back to front, as characters.
spec fn rev_digit_chars(ds: Seq<u64>) -> Seq<char> {
    Seq::new(ds.len(), |i: int| dec_digit_char(ds[ds.len() - 1 - i] as int))
}

/// Renders a number in decimal.
fn u64_to_decimal(n: u64) -> (s: String)
    ensures
        s@ == dec_str(n as nat),
{
    let mut m: u64 = n;
    let mut digits: Vec<u64> = Vec::new();
    while m >= 10
        invariant
            dec_str(n as nat) == dec_str(m as nat) + rev_digit_chars(digits@),
            forall|i: int| 0 <= i < digits@.len() ==> digits@[i] < 10,
        decreases m,
    {
        proof {
            assert(m / 10 < m) by (nonlinear_arith)
                requires
                    m >= 10,
            ;
            assert(rev_digit_chars(digits@.push(m % 10)) =~= seq![
                dec_digit_char((m % 10) as int),
            ] + rev_digit_chars(digits@));
            assert(dec_str(m as nat) == dec_str((m / 10) as nat) + seq![
                dec_digit_char((m % 10) as int),
            ]);
        }
        digits.push(m % 10);
        m = m / 10;
    }
    let mut s = String::new();
    s.append(digit_str(m));
    let mut j: usize = digits.len();
    while j > 0
        invariant
            j <= digits@.len(),
            forall|i: int| 0 <= i < digits@.len() ==> digits@[i] < 10,
            dec_str(n as nat) == dec_str(m as nat) + rev_digit_chars(digits@),
            m < 10,
            s@ == seq![dec_digit_char(m as int)] + rev_digit_chars(digits@.skip(j as int)),
        decreases j,
    {
        proof {
            assert(rev_digit_chars(digits@.skip(j - 1)) =~= rev_digit_chars(
                digits@.skip(j as int),
            ).push(dec_digit_char(digits@[j - 1] as int)));
        }
        s.append(digit_str(digits[j - 1]));
        j = j - 1;
    }
    proof {
        assert(digits@.skip(0) =~= digits@);
        assert(s@ == dec_str(n as nat));
    }
    s
}

/// The content hash primitive: the xxh3 digest of the given bytes, rendered
/// in decimal. Hashing an empty byte sequence yields the sentinel digest for
/// "no relevant workspace files".
pub fn hash(content: &[u8]) -> (r: String)
    ensures
        r@ == digest_chars(content@),
{
    let d = xxh3_64_bytes(content);
    u64_to_decimal(d)
}

} // verus!
