//! Text helpers shared by the model, the server handlers and the command line:
//! comparing strings, writing integers in decimal, reading an `i32` the way
//! `str::parse::<i32>` does, and quoting a string as `{:?}` does.
use vstd::prelude::*;

verus! {

/// The character of the decimal digit `d` (`d < 10`).
pub open spec fn digit_char(d: nat) -> char {
    if d == 0 {
        '0'
    } else if d == 1 {
        '1'
    } else if d == 2 {
        '2'
    } else if d == 3 {
        '3'
    } else if d == 4 {
        '4'
    } else if d == 5 {
        '5'
    } else if d == 6 {
        '6'
    } else if d == 7 {
        '7'
    } else if d == 8 {
        '8'
    } else {
        '9'
    }
}

/// `c` is one of the ASCII digits `0` to `9`.
pub open spec fn is_digit(c: char) -> bool {
    '0' <= c && c <= '9'
}

/// The value of the ASCII digit `c`.
pub open spec fn digit_value(c: char) -> int {
    c as int - '0' as int
}

/// The decimal writing of `n`, without leading zeros.
pub open spec fn decimal(n: nat) -> Seq<char>
    decreases n,
{
    if n < 10 {
        seq![digit_char(n)]
    } else {
        decimal(n / 10).push(digit_char(n % 10))
    }
}

/// The decimal writing of the integer `n`, with a leading `-` when negative
/// (what `Display` writes for the integer types).
pub open spec fn signed_decimal(n: int) -> Seq<char> {
    if n < 0 {
        seq!['-'] + decimal((-n) as nat)
    } else {
        decimal(n as nat)
    }
}

/// Why a string is not an `i32`: the kinds of `std::num::ParseIntError`.
#[derive(Debug, Clone, Copy, PartialEq, Eq, Structural)]
pub enum IntError {
    Empty,
    InvalidDigit,
    PosOverflow,
    NegOverflow,
}

impl IntError {
    /// The text of the error, as `Display` for `ParseIntError` writes it.
    pub open spec fn text(self) -> Seq<char> {
        match self {
            IntError::Empty => "cannot parse integer from empty string"@,
            IntError::InvalidDigit => "invalid digit found in string"@,
            IntError::PosOverflow => "number too large to fit in target type"@,
            IntError::NegOverflow => "number too small to fit in target type"@,
        }
    }

    /// The text of the error.
    pub fn message(&self) -> (r: String)
        ensures
            r@ == self.text(),
    {
        match self {
            IntError::Empty => String::from_str("cannot parse integer from empty string"),
            IntError::InvalidDigit => String::from_str("invalid digit found in string"),
            IntError::PosOverflow => String::from_str("number too large to fit in target type"),
            IntError::NegOverflow => String::from_str("number too small to fit in target type"),
        }
    }
}

/// Reads the digits `s` from left to right onto `acc`, adding each digit
/// (subtracting it when `neg`), and stops at the first character that is not a
/// digit or at the first value that leaves the range of `i32`.
pub open spec fn read_digits(s: Seq<char>, neg: bool, acc: int) -> Result<int, IntError>
    decreases s.len(),
{
    if s.len() == 0 {
        Ok(acc)
    } else if !is_digit(s[0]) {
        Err(IntError::InvalidDigit)
    } else {
        let next = if neg {
            acc * 10 - digit_value(s[0])
        } else {
            acc * 10 + digit_value(s[0])
        };
        if next > i32::MAX {
            Err(IntError::PosOverflow)
        } else if next < i32::MIN {
            Err(IntError::NegOverflow)
        } else {
            read_digits(s.drop_first(), neg, next)
        }
    }
}

/// What `str::parse::<i32>` gives for `s`: an optional sign followed by decimal
/// digits, read from the left.
pub open spec fn parse_i32_spec(s: Seq<char>) -> Result<i32, IntError> {
    if s.len() == 0 {
        Err(IntError::Empty)
    } else if (s[0] == '+' || s[0] == '-') && s.len() == 1 {
        Err(IntError::InvalidDigit)
    } else {
        let neg = s[0] == '-';
        let body = if s[0] == '+' || s[0] == '-' {
            s.drop_first()
        } else {
            s
        };
        match read_digits(body, neg, 0) {
            Ok(v) => Ok(v as i32),
            Err(e) => Err(e),
        }
    }
}

/// The string of one decimal digit.
fn digit_str(d: u64) -> (r: &'static str)
    requires
        d < 10,
    ensures
        r@ == seq![digit_char(d as nat)],
{
    proof {
        reveal_strlit("0");
        reveal_strlit("1");
        reveal_strlit("2");
        reveal_strlit("3");
        reveal_strlit("4");
        reveal_strlit("5");
        reveal_strlit("6");
        reveal_strlit("7");
        reveal_strlit("8");
        reveal_strlit("9");
    }
    if d == 0 {
        "0"
    } else if d == 1 {
        "1"
    } else if d == 2 {
        "2"
    } else if d == 3 {
        "3"
    } else if d == 4 {
        "4"
    } else if d == 5 {
        "5"
    } else if d == 6 {
        "6"
    } else if d == 7 {
        "7"
    } else if d == 8 {
        "8"
    } else {
        "9"
    }
}

/// Appends the decimal writing of `n` to `out`.
pub fn push_decimal(out: &mut String, n: u64)
    ensures
        final(out)@ == old(out)@ + decimal(n as nat),
    decreases n,
{
    if n >= 10 {
        push_decimal(out, n / 10);
        let ghost mid = out@;
        out.append(digit_str(n % 10));
        assert(decimal(n as nat) == decimal((n / 10) as nat).push(digit_char((n % 10) as nat)));
        assert(out@ =~= old(out)@ + decimal(n as nat));
    } else {
        out.append(digit_str(n));
        assert(decimal(n as nat) == seq![digit_char(n as nat)]);
        assert(out@ =~= old(out)@ + decimal(n as nat));
    }
}

/// The decimal writing of `n`, as `n.to_string()` gives it.
pub fn u64_to_string(n: u64) -> (r: String)
    ensures
        r@ == decimal(n as nat),
{
    let mut out = String::new();
    push_decimal(&mut out, n);
    assert(out@ =~= decimal(n as nat));
    out
}

/// The decimal writing of `n`, as `n.to_string()` gives it.
pub fn i32_to_string(n: i32) -> (r: String)
    ensures
        r@ == signed_decimal(n as int),
{
    if n < 0 {
        let mut out = String::from_str("-");
        proof {
            reveal_strlit("-");
        }
        let m: i64 = 0 - (n as i64);
        push_decimal(&mut out, m as u64);
        assert(out@ =~= signed_decimal(n as int));
        out
    } else {
        u64_to_string(n as u64)
    }
}

/// `c` is printable ASCII other than `"` and `\`: `{:?}` writes it unchanged
/// inside the quotes of a string.
pub open spec fn debug_plain(c: char) -> bool {
    ' ' <= c && c <= '~' && c != '"' && c != '\\'
}

/// What `{:?}` writes for the string `s`.
pub uninterp spec fn debug_text(s: Seq<char>) -> Seq<char>;

/// Calls `<str as Debug>::fmt`, through `format!("{:?}", s)`. Its result is
/// named `debug_text`. `Debug` for `str` writes the string between double
/// quotes, escaping `"`, `\`, control characters and characters that are not
/// printable (but not `'`); so a string of characters that are printable ASCII
/// other than `"` and `\` is written unchanged between double quotes. That is
/// stated, and nothing more of the escapes.
#[verifier::external_body]
pub(crate) fn debug_str(s: &str) -> (r: String)
    ensures
        r@ == debug_text(s@),
        (forall|i: int| 0 <= i < s@.len() ==> debug_plain(#[trigger] s@[i])) ==> r@ == seq!['"'] + s@
            + seq!['"'],
{
    format!("{:?}", s)
}

/// Whether `a` and `b` hold the same characters.
pub fn str_eq(a: &str, b: &str) -> (r: bool)
    ensures
        r == (a@ == b@),
{
    let n = a.unicode_len();
    let m = b.unicode_len();
    if n != m {
        return false;
    }
    let mut i: usize = 0;
    while i < n
        invariant
            n == a@.len(),
            m == b@.len(),
            n == m,
            i <= n,
            forall|j: int| 0 <= j < i ==> a@[j] == b@[j],
        decreases n - i,
    {
        if a.get_char(i) != b.get_char(i) {
            return false;
        }
        i = i + 1;
    }
    assert(a@ =~= b@);
    true
}

proof fn lemma_read_digits_step(s: Seq<char>, i: int, neg: bool, acc: int)
    requires
        0 <= i < s.len(),
    ensures
        read_digits(s.skip(i), neg, acc) == (if !is_digit(s[i]) {
            Err(IntError::InvalidDigit)
        } else {
            let next = if neg {
                acc * 10 - digit_value(s[i])
            } else {
                acc * 10 + digit_value(s[i])
            };
            if next > i32::MAX {
                Err(IntError::PosOverflow)
            } else if next < i32::MIN {
                Err(IntError::NegOverflow)
            } else {
                read_digits(s.skip(i + 1), neg, next)
            }
        }),
{
    assert(s.skip(i).drop_first() =~= s.skip(i + 1));
    assert(s.skip(i)[0] == s[i]);
}

/// Reads `s` as an `i32`, as `s.parse::<i32>()` does.
pub fn parse_i32(s: &str) -> (r: Result<i32, IntError>)
    ensures
        r == parse_i32_spec(s@),
{
    let n = s.unicode_len();
    if n == 0 {
        return Err(IntError::Empty);
    }
    let first = s.get_char(0);
    if (first == '+' || first == '-') && n == 1 {
        return Err(IntError::InvalidDigit);
    }
    let neg = first == '-';
    let start: usize = if first == '+' || first == '-' {
        1
    } else {
        0
    };
    let ghost body = if first == '+' || first == '-' {
        s@.drop_first()
    } else {
        s@
    };
    assert(body =~= s@.skip(start as int));
    assert(parse_i32_spec(s@) == match read_digits(s@.skip(start as int), neg, 0) {
        Ok(v) => Ok(v as i32),
        Err(e) => Err(e),
    });
    let mut acc: i64 = 0;
    let mut i: usize = start;
    while i < n
        invariant
            n == s@.len(),
            start <= i <= n,
            i32::MIN <= acc <= i32::MAX,
            read_digits(s@.skip(start as int), neg, 0) == read_digits(s@.skip(i as int), neg, acc as int),
            parse_i32_spec(s@) == match read_digits(s@.skip(start as int), neg, 0) {
                Ok(v) => Ok(v as i32),
                Err(e) => Err::<i32, IntError>(e),
            },
        decreases n - i,
    {
        let c = s.get_char(i);
        proof {
            lemma_read_digits_step(s@, i as int, neg, acc as int);
        }
        if !('0' <= c && c <= '9') {
            return Err(IntError::InvalidDigit);
        }
        let d: i64 = (c as u32 - '0' as u32) as i64;
        let next: i64 = if neg {
            acc * 10 - d
        } else {
            acc * 10 + d
        };
        if next > i32::MAX as i64 {
            return Err(IntError::PosOverflow);
        }
        if next < i32::MIN as i64 {
            return Err(IntError::NegOverflow);
        }
        acc = next;
        i = i + 1;
    }
    assert(s@.skip(n as int) =~= Seq::<char>::empty());
    Ok(acc as i32)
}

} // verus!

verus! {

/// Each digit character is a digit, of the value it is written for.
pub proof fn lemma_digit_char(d: nat)
    requires
        d < 10,
    ensures
        is_digit(digit_char(d)),
        digit_value(digit_char(d)) == d,
{
}

proof fn lemma_read_decimal(m: nat, neg: bool, rest: Seq<char>)
    requires
        neg ==> -(m as int) >= i32::MIN,
        !neg ==> m <= i32::MAX,
    ensures
        read_digits(decimal(m) + rest, neg, 0) == read_digits(
            rest,
            neg,
            if neg {
                -(m as int)
            } else {
                m as int
            },
        ),
    decreases m,
{
    if m < 10 {
        lemma_digit_char(m);
        let s = decimal(m) + rest;
        assert(s[0] == digit_char(m));
        assert(s.drop_first() =~= rest);
    } else {
        let d = digit_char(m % 10);
        lemma_digit_char(m % 10);
        let tail = seq![d] + rest;
        assert(decimal(m) + rest =~= decimal(m / 10) + tail);
        lemma_read_decimal(m / 10, neg, tail);
        assert(tail[0] == d);
        assert(tail.drop_first() =~= rest);
    }
}

/// Reading back the decimal writing of an `i32` gives the same `i32`.
pub proof fn lemma_parse_i32_of_decimal(n: i32)
    ensures
        parse_i32_spec(signed_decimal(n as int)) == Ok::<i32, IntError>(n),
{
    let s = signed_decimal(n as int);
    if n < 0 {
        let m = (-(n as int)) as nat;
        lemma_read_decimal(m, true, Seq::<char>::empty());
        assert(decimal(m) + Seq::<char>::empty() =~= decimal(m));
        assert(s[0] == '-');
        assert(s.drop_first() =~= decimal(m));
        assert(decimal(m).len() > 0);
    } else {
        let m = n as nat;
        lemma_read_decimal(m, false, Seq::<char>::empty());
        assert(decimal(m) + Seq::<char>::empty() =~= decimal(m));
        assert(decimal(m).len() > 0);
        lemma_decimal_first_digit(m);
    }
}

proof fn lemma_decimal_first_digit(m: nat)
    ensures
        decimal(m).len() > 0,
        is_digit(decimal(m)[0]),
    decreases m,
{
    if m < 10 {
        lemma_digit_char(m);
    } else {
        lemma_decimal_first_digit(m / 10);
    }
}

} // verus!

verus! {

proof fn lemma_read_decimal_too_large(m: nat, rest: Seq<char>)
    requires
        m > i32::MAX,
    ensures
        read_digits(decimal(m) + rest, false, 0) == Err::<int, IntError>(IntError::PosOverflow),
    decreases m,
{
    let d = digit_char(m % 10);
    lemma_digit_char(m % 10);
    let tail = seq![d] + rest;
    assert(decimal(m) + rest =~= decimal(m / 10) + tail);
    if m / 10 > i32::MAX {
        lemma_read_decimal_too_large(m / 10, tail);
    } else {
        lemma_read_decimal((m / 10) as nat, false, tail);
        assert(tail[0] == d);
    }
}

/// Reading the decimal writing of a natural number gives it back when it fits
/// in an `i32`, and is refused as too large otherwise.
pub proof fn lemma_parse_i32_of_natural(m: nat)
    ensures
        m <= i32::MAX ==> parse_i32_spec(decimal(m)) == Ok::<i32, IntError>(m as i32),
        m > i32::MAX ==> parse_i32_spec(decimal(m)) == Err::<i32, IntError>(IntError::PosOverflow),
{
    lemma_decimal_first_digit(m);
    assert(decimal(m) + Seq::<char>::empty() =~= decimal(m));
    if m <= i32::MAX {
        lemma_read_decimal(m, false, Seq::<char>::empty());
    } else {
        lemma_read_decimal_too_large(m, Seq::<char>::empty());
    }
}

} // verus!
