//! Text helpers: comparing, building and formatting strings.

use vstd::prelude::*;

verus! {

/// Whether two string slices hold the same characters.
pub fn str_eq(a: &str, b: &str) -> (r: bool)
    ensures
        r == (a@ == b@),
{
    String::from_str(a) == String::from_str(b)
}

/// Appends one character to a string.
///
/// Calls `String::push` of the standard library, which adds the character
/// at the end and leaves what was there untouched.
#[verifier::external_body]
pub(crate) fn push_char(s: &mut String, c: char)
    ensures
        final(s)@ == old(s)@.push(c),
{
    s.push(c)
}

/// The character that stands for one hexadecimal digit, in upper case.
pub open spec fn hex_char(d: nat) -> char {
    if d < 10 {
        ((48 + d) as u8) as char
    } else {
        ((55 + d) as u8) as char
    }
}

/// The two upper-case hexadecimal digits of a byte.
pub open spec fn hex_byte(b: u8) -> Seq<char> {
    seq![hex_char(b as nat / 16), hex_char(b as nat % 16)]
}

fn hex_digit(d: u8) -> (c: char)
    requires
        d < 16,
    ensures
        c == hex_char(d as nat),
{
    if d < 10 {
        (48 + d) as char
    } else {
        (55 + d) as char
    }
}

/// Appends the two upper-case hexadecimal digits of `b` to `s`.
pub fn push_hex_byte(s: &mut String, b: u8)
    ensures
        final(s)@ == old(s)@ + hex_byte(b),
{
    push_char(s, hex_digit(b / 16));
    push_char(s, hex_digit(b % 16));
    assert(s@ =~= old(s)@ + hex_byte(b));
}

/// The character that stands for one decimal digit.
pub open spec fn digit_char(d: nat) -> char {
    ((48 + d) as u8) as char
}

/// The decimal digits of a number, most significant first, without leading
/// zeros; zero is written as `0`.
pub open spec fn decimal(n: nat) -> Seq<char>
    decreases n,
{
    if n < 10 {
        seq![digit_char(n)]
    } else {
        decimal(n / 10).push(digit_char(n % 10))
    }
}

/// Appends the decimal digits of `n` to `s`.
pub fn push_decimal(s: &mut String, n: u64)
    ensures
        final(s)@ == old(s)@ + decimal(n as nat),
    decreases n,
{
    if n >= 10 {
        push_decimal(s, n / 10);
    }
    push_char(s, (48 + (n % 10) as u8) as char);
    assert(s@ =~= old(s)@ + decimal(n as nat));
}

/// The decimal digits of `n` as a string of its own.
pub fn decimal_string(n: u64) -> (s: String)
    ensures
        s@ == decimal(n as nat),
{
    let mut s = String::new();
    push_decimal(&mut s, n);
    assert(s@ =~= decimal(n as nat));
    s
}

/// The number `n` in at least two decimal digits: a zero stands before a
/// single digit.
pub open spec fn two_digits(n: nat) -> Seq<char> {
    if n < 10 {
        seq!['0'] + decimal(n)
    } else {
        decimal(n)
    }
}

/// Appends `n` in at least two decimal digits to `s`.
pub fn push_two_digits(s: &mut String, n: u64)
    ensures
        final(s)@ == old(s)@ + two_digits(n as nat),
{
    if n < 10 {
        push_char(s, '0');
    }
    push_decimal(s, n);
    assert(s@ =~= old(s)@ + two_digits(n as nat));
}

/// Whether a character is white space, as Unicode defines it.
pub open spec fn is_whitespace(c: char) -> bool {
    let n = c as u32;
    ||| 0x09 <= n <= 0x0d
    ||| n == 0x20
    ||| n == 0x85
    ||| n == 0xa0
    ||| n == 0x1680
    ||| 0x2000 <= n <= 0x200a
    ||| n == 0x2028
    ||| n == 0x2029
    ||| n == 0x202f
    ||| n == 0x205f
    ||| n == 0x3000
}

/// A text without the white space it begins with.
pub open spec fn trimmed_start(s: Seq<char>) -> Seq<char>
    decreases s.len(),
{
    if s.len() > 0 && is_whitespace(s.first()) {
        trimmed_start(s.drop_first())
    } else {
        s
    }
}

/// A text without the white space it ends with.
pub open spec fn trimmed_end(s: Seq<char>) -> Seq<char>
    decreases s.len(),
{
    if s.len() > 0 && is_whitespace(s.last()) {
        trimmed_end(s.drop_last())
    } else {
        s
    }
}

/// A text without the white space at either end.
pub open spec fn trimmed(s: Seq<char>) -> Seq<char> {
    trimmed_end(trimmed_start(s))
}

/// Whether a character is white space.
pub fn is_white_space(c: char) -> (r: bool)
    ensures
        r == is_whitespace(c),
{
    let n = c as u32;
    (0x09 <= n && n <= 0x0d) || n == 0x20 || n == 0x85 || n == 0xa0 || n == 0x1680 || (0x2000 <= n
        && n <= 0x200a) || n == 0x2028 || n == 0x2029 || n == 0x202f || n == 0x205f || n == 0x3000
}

/// A text that begins with white space only up to `k` is trimmed at its
/// start as what follows `k` is.
proof fn lemma_trimmed_start(s: Seq<char>, k: int)
    requires
        0 <= k <= s.len(),
        forall|i: int| 0 <= i < k ==> is_whitespace(#[trigger] s[i]),
    ensures
        trimmed_start(s) == trimmed_start(s.skip(k)),
    decreases k,
{
    if k > 0 {
        assert(s.drop_first() =~= s.skip(1));
        assert(s.skip(1).skip(k - 1) =~= s.skip(k));
        assert(is_whitespace(s[0]));
        assert forall|i: int| 0 <= i < k - 1 implies is_whitespace(#[trigger] s.skip(1)[i]) by {
            assert(s.skip(1)[i] == s[i + 1]);
        }
        lemma_trimmed_start(s.skip(1), k - 1);
    } else {
        assert(s.skip(0) =~= s);
    }
}

/// A text that ends with white space only from `k` on is trimmed at its end
/// as what stands before `k` is.
proof fn lemma_trimmed_end(s: Seq<char>, k: int)
    requires
        0 <= k <= s.len(),
        forall|i: int| k <= i < s.len() ==> is_whitespace(#[trigger] s[i]),
    ensures
        trimmed_end(s) == trimmed_end(s.take(k)),
    decreases s.len() - k,
{
    if k < s.len() {
        assert(is_whitespace(s[s.len() - 1]));
        assert(s.drop_last().take(k) =~= s.take(k));
        assert forall|i: int| k <= i < s.len() - 1 implies is_whitespace(
            #[trigger] s.drop_last()[i],
        ) by {
            assert(s.drop_last()[i] == s[i]);
        }
        lemma_trimmed_end(s.drop_last(), k);
    } else {
        assert(s.take(k) =~= s);
    }
}

/// The text without the white space at either end.
pub fn trim<'a>(s: &'a str) -> (r: &'a str)
    ensures
        r@ == trimmed(s@),
{
    let len = s.unicode_len();
    let mut start: usize = 0;
    while start < len && is_white_space(s.get_char(start))
        invariant
            start <= len,
            len == s@.len(),
            forall|i: int| 0 <= i < start ==> is_whitespace(#[trigger] s@[i]),
        decreases len - start,
    {
        start = start + 1;
    }
    let mut end: usize = len;
    while end > start && is_white_space(s.get_char(end - 1))
        invariant
            start <= end <= len,
            len == s@.len(),
            forall|i: int| end <= i < len ==> is_whitespace(#[trigger] s@[i]),
        decreases end,
    {
        end = end - 1;
    }
    proof {
        let rest = s@.skip(start as int);
        lemma_trimmed_start(s@, start as int);
        if start < len {
            assert(rest.first() == s@[start as int]);
        }
        assert(trimmed_start(s@) == rest);
        assert forall|i: int| end - start <= i < rest.len() implies is_whitespace(
            #[trigger] rest[i],
        ) by {
            assert(rest[i] == s@[i + start]);
        }
        lemma_trimmed_end(rest, end - start);
        let kept = rest.take(end - start);
        if end > start {
            assert(kept.last() == s@[end - 1]);
        }
        assert(trimmed_end(kept) == kept);
        assert(kept =~= s@.subrange(start as int, end as int));
    }
    s.substring_char(start, end)
}

/// Why a text is no number.
#[derive(Clone, Copy, Debug, PartialEq, Eq, Structural)]
pub enum ParseError {
    /// The text is empty.
    Empty,
    /// The text holds something else than digits after its sign, or no digit
    /// at all.
    Invalid,
    /// The text is a number, but one outside the range asked for.
    OutOfRange,
}

/// Whether a character is one of the digits `0` to `9`.
pub open spec fn is_digit(c: char) -> bool {
    48 <= c as u32 <= 57
}

/// Whether a text holds digits only.
pub open spec fn all_digits(s: Seq<char>) -> bool {
    forall|i: int| 0 <= i < s.len() ==> is_digit(#[trigger] s[i])
}

/// The number that a text of decimal digits stands for.
pub open spec fn digits_value(s: Seq<char>) -> nat
    decreases s.len(),
{
    if s.len() == 0 {
        0
    } else {
        (digits_value(s.drop_last()) * 10 + (s.last() as u32 - 48)) as nat
    }
}

/// A text without the sign it begins with: a `+`, or, where `negative` is
/// allowed, a `-`.
pub open spec fn unsigned_part(s: Seq<char>, signed: bool) -> Seq<char> {
    if s.len() > 0 && (s[0] == '+' || (signed && s[0] == '-')) {
        s.drop_first()
    } else {
        s
    }
}

/// The whole number that a text stands for, as the standard library reads
/// one: a sign may come first, a `-` only where `signed` is set, and then
/// digits, at least one, and nothing else. The number has to lie between `min`
/// and `max`.
pub open spec fn parsed_number(s: Seq<char>, signed: bool, min: int, max: int) -> Result<
    int,
    ParseError,
> {
    let digits = unsigned_part(s, signed);
    let value = if signed && s.len() > 0 && s[0] == '-' {
        -(digits_value(digits) as int)
    } else {
        digits_value(digits) as int
    };
    if s.len() == 0 {
        Err(ParseError::Empty)
    } else if digits.len() == 0 || !all_digits(digits) {
        Err(ParseError::Invalid)
    } else if value < min || value > max {
        Err(ParseError::OutOfRange)
    } else {
        Ok(value)
    }
}

/// Reads the digits of `s` from position `from` on. Hands back their value,
/// or `None` where it is more than `limit`.
fn read_digits(s: &str, from: usize, limit: u64) -> (r: Result<Option<u64>, ParseError>)
    requires
        from <= s@.len(),
    ensures
        match r {
            Ok(Some(v)) => all_digits(s@.skip(from as int)) && s@.len() > from && v
                == digits_value(s@.skip(from as int)) && v <= limit,
            Ok(None) => all_digits(s@.skip(from as int)) && s@.len() > from && digits_value(
                s@.skip(from as int),
            ) > limit,
            Err(e) => e == ParseError::Invalid && (s@.len() == from || !all_digits(
                s@.skip(from as int),
            )),
        },
{
    let len = s.unicode_len();
    if len == from {
        return Err(ParseError::Invalid);
    }
    let ghost digits = s@.skip(from as int);
    let mut value: u64 = 0;
    let mut over = false;
    let mut i: usize = from;
    proof {
        assert(digits.take(0) =~= Seq::<char>::empty());
    }
    while i < len
        invariant
            from <= i <= len,
            len == s@.len(),
            digits == s@.skip(from as int),
            all_digits(digits.take(i - from)),
            !over ==> value == digits_value(digits.take(i - from)) && value <= limit,
            over ==> digits_value(digits.take(i - from)) > limit,
        decreases len - i,
    {
        let c = s.get_char(i);
        let n = c as u32;
        proof {
            assert(digits[i - from] == c);
            assert(digits.take(i - from + 1).drop_last() =~= digits.take(i - from));
            assert(digits.take(i - from + 1).last() == c);
        }
        if n < 48 || n > 57 {
            assert(!is_digit(digits[i - from]));
            return Err(ParseError::Invalid);
        }
        if !over {
            let digit = (n - 48) as u64;
            match value.checked_mul(10) {
                Some(tens) => match tens.checked_add(digit) {
                    Some(v) => {
                        if v > limit {
                            over = true;
                        } else {
                            value = v;
                        }
                    },
                    None => {
                        over = true;
                    },
                },
                None => {
                    over = true;
                },
            }
        }
        assert(all_digits(digits.take(i - from + 1))) by {
            assert forall|k: int| 0 <= k < i - from + 1 implies is_digit(
                #[trigger] digits.take(i - from + 1)[k],
            ) by {
                if k < i - from {
                    assert(digits.take(i - from)[k] == digits[k]);
                }
            }
        }
        i = i + 1;
    }
    proof {
        assert(digits.take(i - from) =~= digits);
    }
    if over {
        Ok(None)
    } else {
        Ok(Some(value))
    }
}

/// Reads a whole number without a sign, or with a `+`, that is no larger
/// than `max`.
pub fn parse_unsigned(s: &str, max: u64) -> (r: Result<u64, ParseError>)
    ensures
        match r {
            Ok(v) => parsed_number(s@, false, 0, max as int) == Ok::<int, ParseError>(v as int),
            Err(e) => parsed_number(s@, false, 0, max as int) == Err::<int, ParseError>(e),
        },
{
    let len = s.unicode_len();
    if len == 0 {
        return Err(ParseError::Empty);
    }
    let from: usize = if s.get_char(0) == '+' {
        1
    } else {
        0
    };
    proof {
        assert(s@.skip(1) =~= s@.drop_first());
        assert(s@.skip(0) =~= s@);
    }
    match read_digits(s, from, max) {
        Ok(Some(v)) => Ok(v),
        Ok(None) => Err(ParseError::OutOfRange),
        Err(e) => Err(e),
    }
}

/// Reads a whole number with or without a sign that fits in an `i64`.
pub fn parse_i64(s: &str) -> (r: Result<i64, ParseError>)
    ensures
        match r {
            Ok(v) => parsed_number(s@, true, i64::MIN as int, i64::MAX as int) == Ok::<
                int,
                ParseError,
            >(v as int),
            Err(e) => parsed_number(s@, true, i64::MIN as int, i64::MAX as int) == Err::<
                int,
                ParseError,
            >(e),
        },
{
    let len = s.unicode_len();
    if len == 0 {
        return Err(ParseError::Empty);
    }
    let first = s.get_char(0);
    let negative = first == '-';
    let from: usize = if first == '+' || negative {
        1
    } else {
        0
    };
    proof {
        assert(s@.skip(1) =~= s@.drop_first());
        assert(s@.skip(0) =~= s@);
    }
    let limit: u64 = if negative {
        0x8000_0000_0000_0000
    } else {
        0x7fff_ffff_ffff_ffff
    };
    match read_digits(s, from, limit) {
        Ok(Some(v)) => {
            if negative {
                if v == 0x8000_0000_0000_0000 {
                    Ok(i64::MIN)
                } else {
                    Ok(-(v as i64))
                }
            } else {
                Ok(v as i64)
            }
        },
        Ok(None) => Err(ParseError::OutOfRange),
        Err(e) => Err(e),
    }
}

/// A text as a string of its own.
pub fn owned(s: &str) -> (r: String)
    ensures
        r@ == s@,
{
    String::from_str(s)
}

} // verus!
