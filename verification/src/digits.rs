use vstd::prelude::*;
use vstd::string::*;

verus! {

/// A character that is a decimal digit.
pub open spec fn is_dec_digit(c: char) -> bool {
    48 <= c as u32 && c as u32 <= 57
}

/// Numeric value of one decimal digit character.
pub open spec fn digit_val(c: char) -> int {
    c as u32 - 48
}

/// Every character of `s` is a decimal digit.
pub open spec fn all_dec_digits(s: Seq<char>) -> bool {
    forall|i: int| 0 <= i < s.len() ==> is_dec_digit(#[trigger] s[i])
}

/// Value of a sequence of decimal digit characters, most significant first.
pub open spec fn dec_val(s: Seq<char>) -> int
    decreases s.len(),
{
    if s.len() == 0 {
        0
    } else {
        dec_val(s.drop_last()) * 10 + digit_val(s.last())
    }
}

/// Decimal digit character for a value below ten.
pub open spec fn dec_digit(d: int) -> char {
    if d == 0 {
        '0'
    } else if d == 1 {
        '1'
    } else if d == 2 {
        '2'
    } else if d == 3 {
        '3'
    } else if d == 4 {
        '4'
    } else if d == 5 {
        '5'
    } else if d == 6 {
        '6'
    } else if d == 7 {
        '7'
    } else if d == 8 {
        '8'
    } else {
        '9'
    }
}

/// Decimal rendering of a natural number: no sign, no leading zero except for
/// the number zero itself.
pub open spec fn dec_str(n: nat) -> Seq<char>
    decreases n,
{
    if n < 10 {
        seq![dec_digit(n as int)]
    } else {
        dec_str(n / 10).push(dec_digit((n % 10) as int))
    }
}

/// A rendering consists of digits only, is never empty, and parses back to
/// the number it was made from.
pub proof fn lemma_dec_str_val(n: nat)
    ensures
        all_dec_digits(dec_str(n)),
        dec_str(n).len() > 0,
        dec_val(dec_str(n)) == n,
    decreases n,
{
    assert(dec_val(Seq::<char>::empty()) == 0);
    if n < 10 {
        assert(dec_str(n) =~= seq![dec_digit(n as int)]);
        assert(dec_str(n).drop_last() =~= Seq::<char>::empty());
        assert(digit_val(dec_digit(n as int)) == n);
    } else {
        lemma_dec_str_val(n / 10);
        let s = dec_str(n);
        assert(s.drop_last() =~= dec_str(n / 10));
        assert(s.last() == dec_digit((n % 10) as int));
        assert(digit_val(dec_digit((n % 10) as int)) == (n % 10) as int);
        assert(forall|i: int|
            0 <= i < s.len() ==> is_dec_digit(#[trigger] s[i]));
    }
}

/// One-character string slice for a digit value below ten.
fn digit_str(d: u64) -> (r: &'static str)
    requires
        d < 10,
    ensures
        r@ =~= seq![dec_digit(d as int)],
{
    let digits: &'static str = "0123456789";
    proof {
        reveal_strlit("0123456789");
    }
    let r = digits.substring_ascii(d as usize, (d as usize) + 1);
    proof {
        assert(r@ =~= seq![dec_digit(d as int)]);
    }
    r
}

/// Render a number in decimal, matching `dec_str`.
pub fn format_u64(n: u64) -> (r: String)
    ensures
        r@ == dec_str(n as nat),
    decreases n,
{
    if n < 10 {
        let mut s = String::new();
        s.append(digit_str(n));
        proof {
            assert(s@ =~= dec_str(n as nat));
        }
        s
    } else {
        let mut s = format_u64(n / 10);
        s.append(digit_str(n % 10));
        proof {
            assert(s@ =~= dec_str(n as nat));
        }
        s
    }
}

/// Why a sequence of characters failed to parse as a `u64`.
#[derive(Debug, Clone, Copy, PartialEq, Eq)]
pub enum ParseNumError {
    /// The input was empty.
    Empty,
    /// A character that is not a decimal digit was met before any overflow.
    InvalidDigit,
    /// An all-digit prefix already exceeds the largest `u64`.
    Overflow,
}

/// Digits of a numeral after an optional leading plus sign.
pub open spec fn numeral_digits(s: Seq<char>) -> Seq<char> {
    if s.len() > 0 && s[0] == '+' {
        s.drop_first()
    } else {
        s
    }
}

/// The sequence spells a number that fits in a `u64`.
pub open spec fn is_u64_numeral(s: Seq<char>) -> bool {
    &&& numeral_digits(s).len() > 0
    &&& all_dec_digits(numeral_digits(s))
    &&& dec_val(numeral_digits(s)) <= u64::MAX
}

/// Scanning the digit part left to right meets an overflowing all-digit
/// prefix (and hence does so before meeting any invalid character).
pub open spec fn overflows_before_invalid(s: Seq<char>) -> bool {
    exists|k: int|
        0 < k <= numeral_digits(s).len() && all_dec_digits(
            #[trigger] numeral_digits(s).take(k),
        ) && dec_val(numeral_digits(s).take(k)) > u64::MAX
}

/// A sequence of digits has a non-negative value.
proof fn lemma_dec_val_nonneg(s: Seq<char>)
    requires
        all_dec_digits(s),
    ensures
        dec_val(s) >= 0,
    decreases s.len(),
{
    if s.len() > 0 {
        lemma_dec_val_nonneg(s.drop_last());
    }
}

/// Extending an all-digit prefix never decreases its value.
proof fn lemma_dec_val_prefix_le(s: Seq<char>, k1: int, k2: int)
    requires
        0 <= k1 <= k2 <= s.len(),
        all_dec_digits(s.take(k2)),
    ensures
        dec_val(s.take(k1)) <= dec_val(s.take(k2)),
    decreases k2 - k1,
{
    if k1 < k2 {
        assert(s.take(k2).drop_last() =~= s.take(k2 - 1));
        assert(all_dec_digits(s.take(k2 - 1)));
        lemma_dec_val_prefix_le(s, k1, k2 - 1);
        lemma_dec_val_nonneg(s.take(k2 - 1));
        assert(is_dec_digit(s.take(k2)[k2 - 1]));
    }
}

/// Parse a decimal numeral (optionally preceded by a plus sign) as a `u64`,
/// scanning left to right and classifying any failure.
pub fn parse_u64_numeral(s: &str) -> (r: Result<u64, ParseNumError>)
    ensures
        r is Ok <==> is_u64_numeral(s@),
        r is Ok ==> r->Ok_0 == dec_val(numeral_digits(s@)),
        r == Result::<u64, ParseNumError>::Err(ParseNumError::Empty) <==> s@.len() == 0,
        r == Result::<u64, ParseNumError>::Err(ParseNumError::Overflow)
            <==> overflows_before_invalid(s@),
        r == Result::<u64, ParseNumError>::Err(ParseNumError::InvalidDigit)
            <==> (s@.len() > 0 && !overflows_before_invalid(s@) && !is_u64_numeral(s@)),
{
    let len = s.unicode_len();
    if len == 0 {
        return Err(ParseNumError::Empty);
    }
    let first = s.get_char(0);
    let start: usize = if first == '+' {
        1
    } else {
        0
    };
    let ghost d = numeral_digits(s@);
    proof {
        assert(d =~= s@.subrange(start as int, len as int));
    }
    if start == len {
        // A sign with nothing after it: no digit part at all.
        proof {
            assert(d.len() == 0);
        }
        return Err(ParseNumError::InvalidDigit);
    }
    let mut val: u64 = 0;
    let mut i: usize = start;
    while i < len
        invariant
            start <= i <= len,
            len == s@.len(),
            start == 0 || start == 1,
            d == numeral_digits(s@),
            d =~= s@.subrange(start as int, len as int),
            all_dec_digits(d.take(i - start)),
            val == dec_val(d.take(i - start)),
        decreases len - i,
    {
        let c = s.get_char(i);
        let cu = c as u32;
        proof {
            assert(d[i - start] == c);
        }
        if cu < 48 || cu > 57 {
            proof {
                // The bad character bounds every all-digit prefix, whose
                // value is therefore at most the value read so far.
                assert forall|k: int|
                    0 < k <= d.len() && all_dec_digits(#[trigger] d.take(k)) implies dec_val(
                    d.take(k),
                ) <= u64::MAX by {
                    if k > i - start {
                        assert(is_dec_digit(d.take(k)[i - start]));
                        assert(false);
                    } else {
                        lemma_dec_val_prefix_le(d, k, i - start);
                        assert(d.take(k).take(k) =~= d.take(k));
                    }
                }
                assert(!overflows_before_invalid(s@));
                assert(!is_dec_digit(d[i - start]));
            }
            return Err(ParseNumError::InvalidDigit);
        }
        let dv = (cu - 48) as u64;
        let step = match val.checked_mul(10) {
            Some(v10) => v10.checked_add(dv),
            None => None,
        };
        proof {
            assert(d.take(i - start + 1).drop_last() =~= d.take(i - start));
            assert(d.take(i - start + 1).last() == d[i - start]);
        }
        match step {
            Some(v) => {
                val = v;
                i = i + 1;
            },
            None => {
                proof {
                    let k = i - start + 1;
                    assert(all_dec_digits(d.take(k)));
                    assert(dec_val(d.take(k)) > u64::MAX);
                    assert(overflows_before_invalid(s@));
                    if all_dec_digits(d) {
                        lemma_dec_val_prefix_le(d, k, d.len() as int);
                        assert(d.take(d.len() as int) =~= d);
                        assert(!is_u64_numeral(s@));
                    }
                }
                return Err(ParseNumError::Overflow);
            },
        }
    }
    proof {
        assert(d.take(d.len() as int) =~= d);
        assert(all_dec_digits(d));
        assert(val == dec_val(d));
        assert(is_u64_numeral(s@));
        assert forall|k: int|
            0 < k <= d.len() && all_dec_digits(#[trigger] d.take(k)) implies dec_val(d.take(k))
            <= u64::MAX by {
            lemma_dec_val_prefix_le(d, k, d.len() as int);
        }
        assert(!overflows_before_invalid(s@));
    }
    Ok(val)
}

} // verus!
