//! Size tokens such as `512M` or `2G`: a decimal byte count, optionally
//! followed by one of the binary unit letters `K`, `M`, `G`, `T`.

use vstd::prelude::*;
use vstd::slice::slice_subrange;
use vstd::string::{is_ascii_spec_bytes, StringSliceAdditionalSpecFns};
use crate::decimal::{
    all_digits, digits_value, is_digit, lemma_scan_digits_value, lemma_scan_non_digit, parse_u64,
    parse_u64_spec, scan_digits, IntError, MINUS, PLUS,
};

verus! {

/// The byte of the unit letter `K` (2^10).
pub const KIB: u8 = 75;

/// The byte of the unit letter `M` (2^20).
pub const MIB: u8 = 77;

/// The byte of the unit letter `G` (2^30).
pub const GIB: u8 = 71;

/// The byte of the unit letter `T` (2^40).
pub const TIB: u8 = 84;

/// The token used when no limit is given.
pub const DEFAULT_LIMIT: &'static str = "2G";

/// The factor that a final byte stands for: a unit letter's power of 1024,
/// or 1 for any other byte, which then belongs to the number.
pub open spec fn unit_of(b: u8) -> nat {
    if b == KIB {
        1024
    } else if b == MIB {
        1048576
    } else if b == GIB {
        1073741824
    } else if b == TIB {
        1099511627776
    } else {
        1
    }
}

pub open spec fn has_unit(s: Seq<u8>) -> bool {
    s.len() > 0 && unit_of(s.last()) != 1
}

/// The bytes that hold the number: all but a final unit letter.
pub open spec fn number_part(s: Seq<u8>) -> Seq<u8> {
    if has_unit(s) { s.drop_last() } else { s }
}

pub open spec fn unit_factor(s: Seq<u8>) -> nat {
    if has_unit(s) { unit_of(s.last()) } else { 1 }
}

/// The byte count that a size token denotes. The number is scaled by the
/// unit with the bits above the 64th dropped, as a left shift drops them.
pub open spec fn parse_mem_spec(s: Seq<u8>) -> Result<u64, IntError> {
    match parse_u64_spec(number_part(s)) {
        Ok(v) => Ok(((v as nat * unit_factor(s)) % 0x1_0000_0000_0000_0000) as u64),
        Err(e) => Err(e),
    }
}

/// The unit letter of index `k`: none, `K`, `M`, `G`, `T` for 0 to 4.
pub open spec fn suffix(k: nat) -> Seq<u8> {
    if k == 1 {
        seq![KIB]
    } else if k == 2 {
        seq![MIB]
    } else if k == 3 {
        seq![GIB]
    } else if k == 4 {
        seq![TIB]
    } else {
        Seq::empty()
    }
}

/// 2^(10 k).
pub open spec fn power_1024(k: nat) -> nat
    decreases k,
{
    if k == 0 { 1 } else { 1024 * power_1024((k - 1) as nat) }
}

fn unit_byte(b: u8) -> (r: u64)
    ensures
        r as nat == unit_of(b),
{
    if b == KIB {
        1024
    } else if b == MIB {
        1048576
    } else if b == GIB {
        1073741824
    } else if b == TIB {
        1099511627776
    } else {
        1
    }
}

/// Reads a size token into a byte count.
///
/// A final `K`, `M`, `G` or `T` multiplies by 2^10, 2^20, 2^30 or 2^40;
/// the rest must read as an unsigned 64-bit decimal number, else its
/// reading error is returned. Bits scaled past the 64th are lost. Nothing
/// but the token is read or written.
pub fn parse_mem(mem: &str) -> (r: Result<u64, IntError>)
    ensures
        r == parse_mem_spec(mem.spec_bytes()),
{
    let b = mem.as_bytes();
    let n = b.len();
    let unit: u64 = if n > 0 { unit_byte(b[n - 1]) } else { 1 };
    let digits = if unit != 1 { slice_subrange(b, 0, n - 1) } else { b };
    assert(digits@ =~= number_part(b@));
    match parse_u64(digits) {
        Ok(v) => Ok(v.wrapping_mul(unit)),
        Err(e) => Err(e),
    }
}

/// Reads the given size token, or the default `2G` where none is given.
pub fn effective_limit(mem: Option<&str>) -> (r: Result<u64, IntError>)
    ensures
        mem is Some ==> r == parse_mem_spec(mem->0.spec_bytes()),
        mem is None ==> r == parse_mem_spec(DEFAULT_LIMIT.spec_bytes()),
        mem is None ==> r == Ok::<u64, IntError>(2147483648),
{
    match mem {
        Some(s) => parse_mem(s),
        None => {
            proof { lemma_default_limit(); }
            parse_mem(DEFAULT_LIMIT)
        },
    }
}

/// The default token `2G` stands for 2 GiB.
pub proof fn lemma_default_limit()
    ensures
        parse_mem_spec(DEFAULT_LIMIT.spec_bytes()) == Ok::<u64, IntError>(2147483648),
{
    reveal_strlit("2G");
    is_ascii_spec_bytes(DEFAULT_LIMIT);
    let s = DEFAULT_LIMIT.spec_bytes();
    assert(s =~= seq![50u8, GIB]);
    let d = seq![50u8];
    assert(number_part(s) =~= d);
    assert(d.drop_last() =~= Seq::<u8>::empty());
    assert(d.last() == 50u8);
    assert(scan_digits(d.drop_last()) == Ok::<nat, IntError>(0));
    assert(scan_digits(d) == Ok::<nat, IntError>(2));
    assert(!(d =~= seq![PLUS]) && !(d =~= seq![MINUS])) by {
        assert(seq![PLUS][0] == PLUS);
        assert(seq![MINUS][0] == MINUS);
    }
    assert(d[0] != PLUS);
    assert(parse_u64_spec(d) == Ok::<u64, IntError>(2));
    assert(unit_factor(s) == 1073741824);
    assert((2 * 1073741824nat) % 0x1_0000_0000_0000_0000 == 2147483648);
}

/// A run of digits followed by no unit letter, `K`, `M`, `G` or `T` (index
/// `k` from 0 to 4) reads as the number times 2^(10 k), wherever that
/// product fits in 64 bits.
pub proof fn lemma_unit_scaling(digits: Seq<u8>, k: nat)
    requires
        digits.len() > 0,
        all_digits(digits),
        k <= 4,
        digits_value(digits) * power_1024(k) <= u64::MAX,
    ensures
        parse_mem_spec(digits + suffix(k)) == Ok::<u64, IntError>(
            (digits_value(digits) * power_1024(k)) as u64,
        ),
{
    reveal_with_fuel(power_1024, 5);
    let t = digits + suffix(k);
    let v = digits_value(digits);
    let p = power_1024(k);
    assert(p >= 1);
    assert(v <= v * p) by (nonlinear_arith)
        requires
            p >= 1,
    ;
    assert(is_digit(digits[0]));
    assert(is_digit(digits.last()));
    if k == 0 {
        assert(t =~= digits);
    } else {
        assert(t.drop_last() =~= digits);
    }
    assert(number_part(t) =~= digits);
    assert(unit_factor(t) == p);
    assert(!(digits =~= seq![PLUS]) && !(digits =~= seq![MINUS])) by {
        assert(seq![PLUS][0] == PLUS);
        assert(seq![MINUS][0] == MINUS);
    }
    lemma_scan_digits_value(digits);
    assert(parse_u64_spec(digits) == Ok::<u64, IntError>(v as u64));
    assert((v * p) % 0x1_0000_0000_0000_0000 == v * p);
}

/// A number part holding a byte that is neither a digit nor a leading `+`,
/// followed by a unit letter (index `k` from 1 to 4), is rejected.
pub proof fn lemma_non_numeric_rejected(prefix: Seq<u8>, k: nat)
    requires
        1 <= k <= 4,
        exists|i: int|
            0 <= i < prefix.len() && !is_digit(#[trigger] prefix[i]) && (i > 0 || prefix[i] != PLUS),
    ensures
        parse_mem_spec(prefix + suffix(k)) is Err,
{
    let i = choose|i: int|
        0 <= i < prefix.len() && !is_digit(#[trigger] prefix[i]) && (i > 0 || prefix[i] != PLUS);
    let t = prefix + suffix(k);
    assert(t.drop_last() =~= prefix);
    assert(number_part(t) =~= prefix);
    if !(prefix =~= seq![PLUS]) && !(prefix =~= seq![MINUS]) {
        if prefix[0] == PLUS {
            let body = prefix.drop_first();
            assert(body[i - 1] == prefix[i]);
            lemma_scan_non_digit(body, i - 1);
        } else {
            lemma_scan_non_digit(prefix, i);
        }
    }
}

} // verus!
