//! Decimal numbers in text.

use vstd::prelude::*;

use crate::text::from_index;

verus! {

pub open spec fn is_digit(c: char) -> bool {
    '0' <= c <= '9'
}

/// A text that is one or more decimal digits.
pub open spec fn all_digits(s: Seq<char>) -> bool {
    s.len() > 0 && forall|i: int| 0 <= i < s.len() ==> is_digit(#[trigger] s[i])
}

/// The number that decimal digits spell.
pub open spec fn digits_value(s: Seq<char>) -> int
    decreases s.len(),
{
    if s.len() == 0 {
        0
    } else {
        digits_value(s.drop_last()) * 10 + (s.last() as int - '0' as int)
    }
}

/// The digits behind an optional sign `+`.
pub open spec fn unsigned_digits(s: Seq<char>) -> Seq<char> {
    if s.len() > 0 && s[0] == '+' {
        s.skip(1)
    } else {
        s
    }
}

/// The number in `s`: digits, with an optional `+` in front, that fit 32 bits.
pub open spec fn parse_u32(s: Seq<char>) -> Option<u32> {
    let d = unsigned_digits(s);
    if all_digits(d) && digits_value(d) <= u32::MAX {
        Some(digits_value(d) as u32)
    } else {
        None
    }
}

/// The number in `s`: digits, with an optional `+` or `-` in front, that fit 64 signed bits.
pub open spec fn parse_i64(s: Seq<char>) -> Option<i64> {
    if s.len() > 0 && s[0] == '-' {
        let d = s.skip(1);
        if all_digits(d) && -digits_value(d) >= i64::MIN {
            Some((-digits_value(d)) as i64)
        } else {
            None
        }
    } else {
        let d = unsigned_digits(s);
        if all_digits(d) && digits_value(d) <= i64::MAX {
            Some(digits_value(d) as i64)
        } else {
            None
        }
    }
}

/// The number of `o`, or 0.
pub open spec fn or_zero_u32(o: Option<u32>) -> u32 {
    match o {
        Some(n) => n,
        None => 0,
    }
}

pub open spec fn or_zero_i64(o: Option<i64>) -> i64 {
    match o {
        Some(n) => n,
        None => 0,
    }
}

/// The decimal digits of `n`, without leading zeros.
pub open spec fn decimal(n: nat) -> Seq<char>
    decreases n,
{
    let digit = ('0' as int + n % 10) as char;
    if n < 10 {
        seq![digit]
    } else {
        decimal(n / 10).push(digit)
    }
}

/// `n` in decimal, with a `-` in front when it is negative.
pub open spec fn signed_decimal(n: int) -> Seq<char> {
    if n < 0 {
        seq!['-'] + decimal((-n) as nat)
    } else {
        decimal(n as nat)
    }
}

/// Written out and read back, a number is the same.
pub proof fn decimal_reads_back(n: nat)
    ensures
        all_digits(decimal(n)),
        digits_value(decimal(n)) == n,
    decreases n,
{
    let digit = ('0' as int + n % 10) as char;
    if n < 10 {
        assert(seq![digit].drop_last() =~= Seq::<char>::empty());
        assert(digits_value(seq![digit].drop_last()) == 0);
    } else {
        decimal_reads_back(n / 10);
        assert(decimal(n).drop_last() =~= decimal(n / 10));
        assert forall|i: int| 0 <= i < decimal(n).len() implies is_digit(
            #[trigger] decimal(n)[i],
        ) by {
            if i < decimal(n).len() - 1 {
                assert(is_digit(decimal(n / 10)[i]));
            }
        }
    }
}

/// What `parse_u32` and `parse_i64` read from a number that was written out: the number.
pub proof fn parse_reads_decimal(n: u32, t: i64)
    ensures
        parse_u32(decimal(n as nat)) == Some(n),
        parse_i64(signed_decimal(t as int)) == Some(t),
{
    decimal_reads_back(n as nat);
    assert(is_digit(decimal(n as nat)[0]));
    if t < 0 {
        decimal_reads_back((-t) as nat);
        assert(signed_decimal(t as int).skip(1) =~= decimal((-t) as nat));
    } else {
        decimal_reads_back(t as nat);
        assert(is_digit(decimal(t as nat)[0]));
    }
}

proof fn digits_value_grows(s: Seq<char>, i: int)
    requires
        0 <= i <= s.len(),
        all_digits(s),
    ensures
        0 <= digits_value(s.take(i)) <= digits_value(s),
    decreases s.len(),
{
    if i == s.len() {
        assert(s.take(i) =~= s);
        if s.len() > 1 {
            let f = s.drop_last();
            assert forall|k: int| 0 <= k < f.len() implies is_digit(#[trigger] f[k]) by {
                assert(is_digit(s[k]));
            }
            digits_value_grows(f, f.len() as int);
            assert(f.take(f.len() as int) =~= f);
        }
        assert(is_digit(s[s.len() - 1]));
        if s.len() == 1 {
            assert(digits_value(s.drop_last()) == 0);
        }
    } else {
        let f = s.drop_last();
        assert(is_digit(s[s.len() - 1]));
        if f.len() > 0 {
            assert forall|k: int| 0 <= k < f.len() implies is_digit(#[trigger] f[k]) by {
                assert(is_digit(s[k]));
            }
            digits_value_grows(f, i);
            assert(f.take(i) =~= s.take(i));
        } else {
            assert(s.take(i) =~= Seq::<char>::empty());
            assert(digits_value(s.drop_last()) == 0);
        }
    }
}

/// The number that the digits `s` spell, when it is at most `max`.
fn read_digits(s: &[char], max: u64) -> (r: Option<u64>)
    ensures
        match r {
            Some(n) => all_digits(s@) && digits_value(s@) == n && n <= max,
            None => !all_digits(s@) || digits_value(s@) > max,
        },
{
    if s.len() == 0 {
        return None;
    }
    let mut n: u64 = 0;
    let mut i: usize = 0;
    while i < s.len()
        invariant
            i <= s@.len(),
            n <= max,
            n == digits_value(s@.take(i as int)),
            forall|k: int| 0 <= k < i ==> is_digit(#[trigger] s@[k]),
        decreases s@.len() - i,
    {
        let c: char = s[i];
        if !('0' <= c && c <= '9') {
            assert(!is_digit(s@[i as int]));
            return None;
        }
        let next: u128 = n as u128 * 10 + (c as u32 - '0' as u32) as u128;
        proof {
            assert(s@.take(i + 1).drop_last() =~= s@.take(i as int));
            assert(next == digits_value(s@.take(i + 1)));
        }
        if next > max as u128 {
            proof {
                if all_digits(s@) {
                    digits_value_grows(s@, i + 1);
                }
            }
            return None;
        }
        n = next as u64;
        i += 1;
    }
    assert(s@.take(s@.len() as int) =~= s@);
    Some(n)
}

pub fn read_u32(s: &[char]) -> (r: Option<u32>)
    ensures
        r == parse_u32(s@),
{
    let d = if s.len() > 0 && s[0] == '+' {
        from_index(s, 1)
    } else {
        s
    };
    match read_digits(d, u32::MAX as u64) {
        Some(n) => Some(n as u32),
        None => None,
    }
}

pub fn read_i64(s: &[char]) -> (r: Option<i64>)
    ensures
        r == parse_i64(s@),
{
    if s.len() > 0 && s[0] == '-' {
        match read_digits(from_index(s, 1), 0x8000_0000_0000_0000) {
            Some(n) => if n == 0x8000_0000_0000_0000 {
                Some(i64::MIN)
            } else {
                Some(-(n as i64))
            },
            None => None,
        }
    } else {
        let d = if s.len() > 0 && s[0] == '+' {
            from_index(s, 1)
        } else {
            s
        };
        match read_digits(d, i64::MAX as u64) {
            Some(n) => Some(n as i64),
            None => None,
        }
    }
}

/// `n` in decimal.
pub fn decimal_text(n: u128) -> (r: String)
    ensures
        r@ == decimal(n as nat),
    decreases n,
{
    let digit: char = (48 + (n % 10) as u8) as char;
    let mut s: String = if n < 10 {
        String::new()
    } else {
        decimal_text(n / 10)
    };
    s.push(digit);
    assert(n < 10 ==> s@ =~= seq![digit]);
    s
}

pub fn signed_text(n: i64) -> (r: String)
    ensures
        r@ == signed_decimal(n as int),
{
    if n >= 0 {
        decimal_text(n as u128)
    } else {
        let mut s: String = String::new();
        s.push('-');
        let rest = decimal_text((-(n as i128)) as u128);
        s.append(rest.as_str());
        assert(s@ =~= signed_decimal(n as int));
        s
    }
}

/// A number is written without zeros in front, and its digits count by ten.
pub proof fn numbers_are_decimal(n: nat, s: Seq<char>, c: char)
    requires
        '0' <= c <= '9',
    ensures
        forall|i: int| 0 <= i < decimal(n).len() ==> '0' <= #[trigger] decimal(n)[i] <= '9',
        n > 0 ==> decimal(n)[0] != '0',
        decimal(0) == seq!['0'],
        digits_value(decimal(n)) == n,
        digits_value(Seq::<char>::empty()) == 0,
        digits_value(s.push(c)) == 10 * digits_value(s) + (c as int - '0' as int),
        signed_decimal(n as int) == decimal(n),
        n > 0 ==> signed_decimal(-n) == seq!['-'] + decimal(n),
{
    decimal_reads_back(n);
    no_zero_in_front(n);
    assert forall|i: int| 0 <= i < decimal(n).len() implies '0' <= #[trigger] decimal(n)[i]
        <= '9' by {
        assert(is_digit(decimal(n)[i]));
    }
    assert(s.push(c).drop_last() =~= s);
}

proof fn no_zero_in_front(n: nat)
    ensures
        decimal(n).len() > 0,
        n > 0 ==> decimal(n)[0] != '0',
    decreases n,
{
    if n >= 10 {
        no_zero_in_front(n / 10);
        assert(decimal(n)[0] == decimal(n / 10)[0]);
    } else {
        let digit = ('0' as int + n % 10) as char;
        assert(decimal(n)[0] == digit);
    }
}

/// Digits, with a sign in front or not, are read as the number that they spell, zeros in front and
/// all; a number that does not fit is not read.
pub proof fn digits_are_read(d: Seq<char>)
    requires
        d.len() > 0,
        forall|i: int| 0 <= i < d.len() ==> '0' <= #[trigger] d[i] <= '9',
    ensures
        digits_value(d) <= u32::MAX ==> parse_u32(d) == Some(digits_value(d) as u32),
        digits_value(d) > u32::MAX ==> parse_u32(d) is None,
        digits_value(d) <= i64::MAX ==> parse_i64(d) == Some(digits_value(d) as i64),
        digits_value(d) > i64::MAX ==> parse_i64(d) is None,
        -digits_value(d) >= i64::MIN ==> parse_i64(seq!['-'] + d) == Some(
            (-digits_value(d)) as i64,
        ),
        -digits_value(d) < i64::MIN ==> parse_i64(seq!['-'] + d) is None,
        parse_u32(seq!['+'] + d) == parse_u32(d),
        parse_i64(seq!['+'] + d) == parse_i64(d),
        parse_u32(seq!['-'] + d) is None,
{
    assert(all_digits(d));
    assert((seq!['-'] + d).skip(1) =~= d);
    assert((seq!['+'] + d).skip(1) =~= d);
    assert(!is_digit((seq!['-'] + d)[0]));
}

/// Anything else but digits is no number.
pub proof fn other_texts_are_no_numbers(s: Seq<char>, i: int)
    requires
        s.len() > 0 ==> 0 <= i < s.len() && !('0' <= s[i] <= '9') && (i > 0 || s.len() == 1 || (s[0]
            != '+' && s[0] != '-')),
    ensures
        parse_u32(s) is None,
        parse_i64(s) is None,
        or_zero_u32(parse_u32(s)) == 0,
        or_zero_i64(parse_i64(s)) == 0,
{
    if s.len() > 0 {
        assert(!is_digit(s[i]));
        if s[0] == '+' || s[0] == '-' {
            let d = s.skip(1);
            if i > 0 {
                assert(d[i - 1] == s[i]);
            }
        }
    }
}

} // verus!
