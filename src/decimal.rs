//! Decimal digits: reading an unsigned 64-bit integer from bytes, the way
//! `u64::from_str` does, and writing one.

use vstd::prelude::*;

verus! {

/// Why a decimal number could not be read.
#[derive(Clone, Copy, Debug, PartialEq, Eq, Structural)]
pub enum IntError {
    /// There was nothing to read.
    Empty,
    /// A byte that is not a decimal digit stood where a digit was expected.
    InvalidDigit,
    /// The number does not fit in 64 bits.
    Overflow,
}

impl IntError {
    /// The words that std uses for the same failure.
    pub fn message(&self) -> (r: &'static str)
        ensures
            *self == IntError::Empty ==> r@ == "cannot parse integer from empty string"@,
            *self == IntError::InvalidDigit ==> r@ == "invalid digit found in string"@,
            *self == IntError::Overflow ==> r@ == "number too large to fit in target type"@,
    {
        proof {
            reveal_strlit("cannot parse integer from empty string");
            reveal_strlit("invalid digit found in string");
            reveal_strlit("number too large to fit in target type");
        }
        match self {
            IntError::Empty => "cannot parse integer from empty string",
            IntError::InvalidDigit => "invalid digit found in string",
            IntError::Overflow => "number too large to fit in target type",
        }
    }
}

/// The byte of the digit `0`.
pub const ZERO: u8 = 48;

/// The byte of the digit `9`.
pub const NINE: u8 = 57;

/// The byte of `+`.
pub const PLUS: u8 = 43;

/// The byte of `-`.
pub const MINUS: u8 = 45;

/// The byte of a line feed.
pub const NEWLINE: u8 = 10;

pub open spec fn is_digit(b: u8) -> bool {
    ZERO <= b && b <= NINE
}

pub open spec fn digit_value(b: u8) -> nat {
    (b - ZERO) as nat
}

pub open spec fn all_digits(s: Seq<u8>) -> bool {
    forall|i: int| 0 <= i < s.len() ==> is_digit(#[trigger] s[i])
}

/// The number that a run of digits denotes, however large.
pub open spec fn digits_value(s: Seq<u8>) -> nat
    decreases s.len(),
{
    if s.len() == 0 {
        0
    } else {
        digits_value(s.drop_last()) * 10 + digit_value(s.last())
    }
}

/// Reading digits left to right: the first byte that is not a digit, or the
/// first digit that takes the value past `u64::MAX`, ends the reading.
pub open spec fn scan_digits(s: Seq<u8>) -> Result<nat, IntError>
    decreases s.len(),
{
    if s.len() == 0 {
        Ok(0)
    } else {
        match scan_digits(s.drop_last()) {
            Err(e) => Err(e),
            Ok(v) => if !is_digit(s.last()) {
                Err(IntError::InvalidDigit)
            } else if v * 10 + digit_value(s.last()) > u64::MAX {
                Err(IntError::Overflow)
            } else {
                Ok(v * 10 + digit_value(s.last()))
            },
        }
    }
}

/// What `u64::from_str` gives: an optional leading `+`, then digits.
pub open spec fn parse_u64_spec(s: Seq<u8>) -> Result<u64, IntError> {
    if s.len() == 0 {
        Err(IntError::Empty)
    } else if s =~= seq![PLUS] || s =~= seq![MINUS] {
        Err(IntError::InvalidDigit)
    } else {
        let body = if s[0] == PLUS { s.drop_first() } else { s };
        match scan_digits(body) {
            Ok(v) => Ok(v as u64),
            Err(e) => Err(e),
        }
    }
}

/// The shortest decimal writing of `n`.
pub open spec fn decimal(n: nat) -> Seq<u8>
    decreases n,
{
    if n < 10 {
        seq![(ZERO + n) as u8]
    } else {
        decimal(n / 10).push((ZERO + n % 10) as u8)
    }
}

/// Reads an unsigned 64-bit decimal number.
pub fn parse_u64(s: &[u8]) -> (r: Result<u64, IntError>)
    ensures
        r == parse_u64_spec(s@),
{
    let n = s.len();
    if n == 0 {
        return Err(IntError::Empty);
    }
    if n == 1 && (s[0] == PLUS || s[0] == MINUS) {
        assert(s@ =~= seq![s[0]]);
        return Err(IntError::InvalidDigit);
    }
    assert(!(s@ =~= seq![PLUS]) && !(s@ =~= seq![MINUS])) by {
        if n == 1 {
            assert(s@ =~= seq![PLUS] ==> s@[0] == PLUS);
            assert(s@ =~= seq![MINUS] ==> s@[0] == MINUS);
        } else {
            assert(seq![PLUS].len() == 1);
            assert(seq![MINUS].len() == 1);
        }
    }
    let start: usize = if s[0] == PLUS { 1 } else { 0 };
    let ghost body = s@.subrange(start as int, n as int);
    assert(body =~= (if s@[0] == PLUS { s@.drop_first() } else { s@ }));
    let mut acc: u64 = 0;
    let mut i: usize = start;
    assert(s@.subrange(start as int, start as int) =~= Seq::<u8>::empty());
    while i < n
        invariant
            start <= i <= n,
            n == s@.len(),
            n > 0,
            !(s@ =~= seq![PLUS]) && !(s@ =~= seq![MINUS]),
            body == s@.subrange(start as int, n as int),
            body == (if s@[0] == PLUS { s@.drop_first() } else { s@ }),
            scan_digits(s@.subrange(start as int, i as int)) == Ok::<nat, IntError>(acc as nat),
        decreases n - i,
    {
        let b = s[i];
        let ghost pre = s@.subrange(start as int, i as int);
        let ghost cur = s@.subrange(start as int, i + 1);
        assert(cur.drop_last() =~= pre);
        assert(cur.last() == b);
        if b < ZERO || b > NINE {
            assert(scan_digits(cur) == Err::<nat, IntError>(IntError::InvalidDigit));
            proof { lemma_scan_err_extends(s@, start as int, i + 1, n as int); }
            return Err(IntError::InvalidDigit);
        }
        let d: u64 = (b - ZERO) as u64;
        let next = match acc.checked_mul(10) {
            Some(m) => m.checked_add(d),
            None => None,
        };
        match next {
            Some(v) => {
                acc = v;
            },
            None => {
                assert(scan_digits(cur) == Err::<nat, IntError>(IntError::Overflow));
                proof { lemma_scan_err_extends(s@, start as int, i + 1, n as int); }
                return Err(IntError::Overflow);
            },
        }
        i = i + 1;
    }
    assert(s@.subrange(start as int, n as int) == body);
    Ok(acc)
}

/// Once reading has failed, more bytes after do not change the failure.
proof fn lemma_scan_err_extends(s: Seq<u8>, start: int, i: int, n: int)
    requires
        0 <= start <= i <= n <= s.len(),
        scan_digits(s.subrange(start, i)) is Err,
    ensures
        scan_digits(s.subrange(start, n)) == scan_digits(s.subrange(start, i)),
    decreases n - i,
{
    if i < n {
        lemma_scan_err_extends(s, start, i, n - 1);
        assert(s.subrange(start, n).drop_last() =~= s.subrange(start, n - 1));
    }
}

/// A run of digits whose value fits in 64 bits reads as that value.
pub proof fn lemma_scan_digits_value(s: Seq<u8>)
    requires
        all_digits(s),
        digits_value(s) <= u64::MAX,
    ensures
        scan_digits(s) == Ok::<nat, IntError>(digits_value(s)),
    decreases s.len(),
{
    if s.len() > 0 {
        let p = s.drop_last();
        assert(all_digits(p)) by {
            assert forall|i: int| 0 <= i < p.len() implies is_digit(#[trigger] p[i]) by {
                assert(p[i] == s[i]);
            }
        }
        assert(digits_value(p) <= digits_value(s)) by (nonlinear_arith)
            requires
                digits_value(s) == digits_value(p) * 10 + digit_value(s.last()),
        ;
        lemma_scan_digits_value(p);
        assert(is_digit(s[s.len() - 1]));
    }
}

/// A byte that is not a digit makes the reading of the run fail.
pub proof fn lemma_scan_non_digit(s: Seq<u8>, i: int)
    requires
        0 <= i < s.len(),
        !is_digit(s[i]),
    ensures
        scan_digits(s) is Err,
    decreases s.len(),
{
    if i < s.len() - 1 {
        let p = s.drop_last();
        assert(p[i] == s[i]);
        lemma_scan_non_digit(p, i);
    }
}

/// Appends the decimal writing of `n` to `out`.
pub fn push_decimal(n: u64, out: &mut Vec<u8>)
    ensures
        final(out)@ == old(out)@ + decimal(n as nat),
    decreases n,
{
    if n >= 10 {
        push_decimal(n / 10, out);
    }
    out.push(ZERO + (n % 10) as u8);
    assert(decimal(n as nat) =~= (if n < 10 {
        seq![(ZERO + n) as u8]
    } else {
        decimal((n / 10) as nat).push((ZERO + n % 10) as u8)
    }));
}

/// The decimal writing of `n` followed by a newline.
pub fn decimal_line(n: u64) -> (r: Vec<u8>)
    ensures
        r@ == decimal(n as nat).push(NEWLINE),
{
    let mut out: Vec<u8> = Vec::new();
    push_decimal(n, &mut out);
    out.push(NEWLINE);
    assert(Seq::<u8>::empty() + decimal(n as nat) =~= decimal(n as nat));
    out
}

/// The decimal writing of a number is a non-empty run of digits whose value
/// is that number.
pub proof fn lemma_decimal_digits(n: nat)
    ensures
        decimal(n).len() > 0,
        all_digits(decimal(n)),
        digits_value(decimal(n)) == n,
    decreases n,
{
    let s = decimal(n);
    if n >= 10 {
        lemma_decimal_digits(n / 10);
        let p = decimal(n / 10);
        assert(s.drop_last() =~= p);
        assert(digit_value(s.last()) == n % 10);
        assert((n / 10) * 10 + n % 10 == n);
        assert(digits_value(s) == digits_value(p) * 10 + digit_value(s.last()));
        assert forall|i: int| 0 <= i < s.len() implies is_digit(#[trigger] s[i]) by {
            if i < p.len() {
                assert(s[i] == p[i]);
            }
        }
    } else {
        assert(s.drop_last() =~= Seq::<u8>::empty());
        assert(digit_value(s.last()) == n);
        assert(digits_value(Seq::<u8>::empty()) == 0);
        assert(digits_value(s) == digits_value(s.drop_last()) * 10 + digit_value(s.last()));
    }
}

/// A number written in decimal reads back as the same number.
pub proof fn lemma_decimal_round_trip(n: u64)
    ensures
        parse_u64_spec(decimal(n as nat)) == Ok::<u64, IntError>(n),
{
    let s = decimal(n as nat);
    lemma_decimal_digits(n as nat);
    lemma_scan_digits_value(s);
    assert(is_digit(s[0]));
    assert(!(s =~= seq![PLUS]) && !(s =~= seq![MINUS])) by {
        assert(seq![PLUS][0] == PLUS);
        assert(seq![MINUS][0] == MINUS);
    }
}

} // verus!
