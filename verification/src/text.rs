//! Text: building messages, writing and reading decimal numbers, and the few
//! string operations that identifiers and locations need.

use vstd::prelude::*;

use crate::value::opt_view;

verus! {

/// The character of one decimal digit.
pub open spec fn digit(d: int) -> char {
    if d == 0 {
        '0'
    } else if d == 1 {
        '1'
    } else if d == 2 {
        '2'
    } else if d == 3 {
        '3'
    } else if d == 4 {
        '4'
    } else if d == 5 {
        '5'
    } else if d == 6 {
        '6'
    } else if d == 7 {
        '7'
    } else if d == 8 {
        '8'
    } else {
        '9'
    }
}

/// A natural number in decimal notation, without leading zeros.
pub open spec fn decimal(n: nat) -> Seq<char>
    decreases n,
{
    if n < 10 {
        seq![digit(n as int)]
    } else {
        decimal(n / 10).push(digit((n % 10) as int))
    }
}

/// `text` followed by one decimal digit.
fn with_digit(text: &str, d: u128) -> (longer: String)
    requires
        d < 10,
    ensures
        longer@ == text@.push(digit(d as int)),
{
    proof {
        reveal_strlit("0");
        reveal_strlit("1");
        reveal_strlit("2");
        reveal_strlit("3");
        reveal_strlit("4");
        reveal_strlit("5");
        reveal_strlit("6");
        reveal_strlit("7");
        reveal_strlit("8");
        reveal_strlit("9");
    }
    let tail: &str = match d {
        0 => "0",
        1 => "1",
        2 => "2",
        3 => "3",
        4 => "4",
        5 => "5",
        6 => "6",
        7 => "7",
        8 => "8",
        _ => "9",
    };
    assert(text@ + tail@ =~= text@.push(digit(d as int)));
    text.to_owned().concat(tail)
}

/// A number in decimal notation.
pub fn decimal_text(n: u64) -> (text: String)
    ensures
        text@ == decimal(n as nat),
{
    wide_decimal_text(n as u128)
}

/// A wide number in decimal notation.
pub fn wide_decimal_text(n: u128) -> (text: String)
    ensures
        text@ == decimal(n as nat),
    decreases n,
{
    if n < 10 {
        let text: String = with_digit("", n);
        proof {
            reveal_strlit("");
        }
        assert(text@ =~= decimal(n as nat));
        text
    } else {
        let head: String = wide_decimal_text(n / 10);
        with_digit(head.as_str(), n % 10)
    }
}

/// The value of a decimal digit.
pub open spec fn digit_value(c: char) -> int {
    c as int - '0' as int
}

/// Whether a character is a decimal digit.
pub open spec fn is_digit(c: char) -> bool {
    '0' as int <= c as int <= '9' as int
}

/// Whether a text holds decimal digits and nothing else.
pub open spec fn all_digits(text: Seq<char>) -> bool {
    forall|i: int| 0 <= i < text.len() ==> is_digit(#[trigger] text[i])
}

/// The number that a sequence of decimal digits denotes.
pub open spec fn number(text: Seq<char>) -> int
    decreases text.len(),
{
    if text.len() == 0 {
        0
    } else {
        number(text.drop_last()) * 10 + digit_value(text.last())
    }
}

/// The digits of a number, without the sign that it may have.
pub open spec fn unsigned_part(text: Seq<char>) -> Seq<char> {
    if text.len() > 0 && (text[0] == '-' || text[0] == '+') {
        text.drop_first()
    } else {
        text
    }
}

/// The integer that a text denotes in decimal notation with an optional sign.
pub open spec fn integer_of(text: Seq<char>) -> Option<int> {
    let body = unsigned_part(text);
    if body.len() == 0 || !all_digits(body) {
        None
    } else if text[0] == '-' {
        Some(-number(body))
    } else {
        Some(number(body))
    }
}

/// Whether the first `n` characters behind the sign of a text are digits of a number
/// outside the 64-bit range.
pub open spec fn exceeds(text: Seq<char>, n: int) -> bool {
    let digits = unsigned_part(text).subrange(0, n);
    all_digits(digits) && number(digits) > if text[0] == '-' {
        -i64::MIN
    } else {
        i64::MAX as int
    }
}

/// Why a text is not a 64-bit integer. It is read from the left: digits that leave
/// the range count before whatever follows them.
pub open spec fn not_an_integer(text: Seq<char>) -> Seq<char> {
    if text.len() == 0 {
        "cannot parse integer from empty string"@
    } else if exists|n: int| 0 <= n <= unsigned_part(text).len() && #[trigger] exceeds(text, n) {
        if text[0] == '-' {
            "number too small to fit in target type"@
        } else {
            "number too large to fit in target type"@
        }
    } else {
        "invalid digit found in string"@
    }
}

/// More digits never denote less.
proof fn lemma_number_grows(digits: Seq<char>, n: int)
    requires
        all_digits(digits),
        0 <= n <= digits.len(),
    ensures
        0 <= number(digits.subrange(0, n)) <= number(digits),
    decreases digits.len(),
{
    if digits.len() > 0 {
        let rest = digits.drop_last();
        assert(is_digit(digits.last()));
        assert forall|i: int| 0 <= i < rest.len() implies is_digit(#[trigger] rest[i]) by {
            assert(rest[i] == digits[i]);
        }
        lemma_number_grows(rest, rest.len() as int);
        assert(rest.subrange(0, rest.len() as int) =~= rest);
        if n < digits.len() {
            lemma_number_grows(rest, n);
            assert(rest.subrange(0, n) =~= digits.subrange(0, n));
        } else {
            assert(digits.subrange(0, n) =~= digits);
        }
    } else {
        assert(digits.subrange(0, n) =~= digits);
    }
}

/// Reads a 64-bit integer in decimal notation.
pub fn parse_i64(text: &str) -> (result: Result<i64, String>)
    ensures
        match integer_of(text@) {
            Some(value) => if i64::MIN <= value <= i64::MAX {
                result == Ok::<i64, String>(value as i64)
            } else {
                result is Err && result->Err_0@ == not_an_integer(text@)
            },
            None => result is Err && result->Err_0@ == not_an_integer(text@),
        },
{
    let length: usize = text.unicode_len();
    if length == 0 {
        return Err("cannot parse integer from empty string".to_owned());
    }
    let first: char = text.get_char(0);
    let negative: bool = first == '-';
    let start: usize = if negative || first == '+' {
        1
    } else {
        0
    };
    let ghost body = unsigned_part(text@);
    assert(body =~= text@.subrange(start as int, length as int));
    if start == length {
        proof {
            assert forall|n: int| 0 <= n <= body.len() implies !#[trigger] exceeds(text@, n) by {
                assert(body.subrange(0, n) =~= Seq::empty());
            }
        }
        return Err("invalid digit found in string".to_owned());
    }
    let limit: u128 = if negative {
        0x8000_0000_0000_0000
    } else {
        0x7fff_ffff_ffff_ffff
    };
    let mut value: u128 = 0;
    let mut i: usize = start;
    assert(body.subrange(0, 0) =~= Seq::empty());
    while i < length
        invariant
            start <= i <= length,
            length == text@.len(),
            body == text@.subrange(start as int, length as int),
            body == unsigned_part(text@),
            length > start,
            negative == (text@[0] == '-'),
            limit == if negative {
                0x8000_0000_0000_0000u128
            } else {
                0x7fff_ffff_ffff_ffffu128
            },
            all_digits(body.subrange(0, i - start)),
            value == number(body.subrange(0, i - start)),
            value <= limit,
            forall|n: int| 0 <= n <= i - start ==> !#[trigger] exceeds(text@, n),
        decreases length - i,
    {
        let c: char = text.get_char(i);
        let ghost before = body.subrange(0, i - start);
        let ghost after = body.subrange(0, i - start + 1);
        assert(after.drop_last() =~= before);
        assert(after.last() == c);
        assert(body[i - start] == c);
        if c < '0' || c > '9' {
            proof {
                assert(!is_digit(body[i - start]));
                assert forall|n: int| 0 <= n <= body.len() implies !#[trigger] exceeds(text@, n) by {
                    if n > i - start {
                        assert(body.subrange(0, n)[i - start] == c);
                    }
                }
            }
            return Err("invalid digit found in string".to_owned());
        }
        assert forall|j: int| 0 <= j < after.len() implies is_digit(#[trigger] after[j]) by {
            if j < before.len() {
                assert(before[j] == after[j]);
            }
        }
        let d: u128 = (c as u32 - '0' as u32) as u128;
        value = value * 10 + d;
        assert(value == number(after));
        if value > limit {
            proof {
                assert(exceeds(text@, i - start + 1));
                if all_digits(body) {
                    lemma_number_grows(body, i - start + 1);
                }
            }
            return Err(
                if negative {
                    "number too small to fit in target type".to_owned()
                } else {
                    "number too large to fit in target type".to_owned()
                },
            );
        }
        assert(!exceeds(text@, i - start + 1));
        i += 1;
    }
    assert(body.subrange(0, length - start) =~= body);
    if negative {
        if value == 0x8000_0000_0000_0000 {
            return Ok(i64::MIN);
        }
        return Ok(-(value as i64));
    }
    Ok(value as i64)
}

/// Writing a number in decimal notation and reading it back gives the number.
pub proof fn lemma_decimal_denotes(n: nat)
    ensures
        all_digits(decimal(n)),
        decimal(n).len() > 0,
        number(decimal(n)) == n,
        integer_of(decimal(n)) == Some(n as int),
    decreases n,
{
    let text = decimal(n);
    if n < 10 {
        assert(text.drop_last() =~= Seq::<char>::empty());
        assert(text.last() == digit(n as int));
        assert(number(text.drop_last()) == 0);
    } else {
        lemma_decimal_denotes(n / 10);
        assert(text.drop_last() =~= decimal(n / 10));
        assert(text.last() == digit((n % 10) as int));
        assert forall|i: int| 0 <= i < text.len() implies is_digit(#[trigger] text[i]) by {
            if i < text.len() - 1 {
                assert(text[i] == decimal(n / 10)[i]);
            }
        }
    }
    assert(is_digit(text[0]));
}

/// Two pieces of text, one behind the other.
pub fn cat2(a: &str, b: &str) -> (text: String)
    ensures
        text@ == a@ + b@,
{
    a.to_owned().concat(b)
}

/// Three pieces of text, one behind the other.
pub fn cat3(a: &str, b: &str, c: &str) -> (text: String)
    ensures
        text@ == a@ + b@ + c@,
{
    cat2(a, b).concat(c)
}

/// Four pieces of text, one behind the other.
pub fn cat4(a: &str, b: &str, c: &str, d: &str) -> (text: String)
    ensures
        text@ == a@ + b@ + c@ + d@,
{
    cat3(a, b, c).concat(d)
}

/// Five pieces of text, one behind the other.
pub fn cat5(a: &str, b: &str, c: &str, d: &str, e: &str) -> (text: String)
    ensures
        text@ == a@ + b@ + c@ + d@ + e@,
{
    cat4(a, b, c, d).concat(e)
}

/// Six pieces of text, one behind the other.
pub fn cat6(a: &str, b: &str, c: &str, d: &str, e: &str, f: &str) -> (text: String)
    ensures
        text@ == a@ + b@ + c@ + d@ + e@ + f@,
{
    cat5(a, b, c, d, e).concat(f)
}

/// Seven pieces of text, one behind the other.
pub fn cat7(a: &str, b: &str, c: &str, d: &str, e: &str, f: &str, g: &str) -> (text: String)
    ensures
        text@ == a@ + b@ + c@ + d@ + e@ + f@ + g@,
{
    cat6(a, b, c, d, e, f).concat(g)
}

/// Whether two pieces of text are the same.
pub fn same_text(a: &str, b: &str) -> (equal: bool)
    ensures
        equal == (a@ == b@),
{
    a.to_owned() == b.to_owned()
}

/// Whether `text` starts with `prefix`.
pub open spec fn starts_with(text: Seq<char>, prefix: Seq<char>) -> bool {
    prefix.len() <= text.len() && text.subrange(0, prefix.len() as int) == prefix
}

/// Whether `text` ends with `suffix`.
pub open spec fn ends_with(text: Seq<char>, suffix: Seq<char>) -> bool {
    suffix.len() <= text.len() && text.subrange(
        text.len() - suffix.len(),
        text.len() as int,
    ) == suffix
}

/// Whether `text` starts with `prefix`.
pub fn has_prefix(text: &str, prefix: &str) -> (answer: bool)
    ensures
        answer == starts_with(text@, prefix@),
{
    let length: usize = prefix.unicode_len();
    length <= text.unicode_len() && same_text(text.substring_char(0, length), prefix)
}

/// Whether `text` ends with `suffix`.
pub fn has_suffix(text: &str, suffix: &str) -> (answer: bool)
    ensures
        answer == ends_with(text@, suffix@),
{
    let total: usize = text.unicode_len();
    let length: usize = suffix.unicode_len();
    length <= total && same_text(text.substring_char(total - length, total), suffix)
}

/// `text` without the slashes at its end.
pub open spec fn trimmed_end(text: Seq<char>) -> Seq<char>
    decreases text.len(),
{
    if text.len() > 0 && text.last() == '/' {
        trimmed_end(text.drop_last())
    } else {
        text
    }
}

/// `text` without the slashes at its start.
pub open spec fn trimmed_start(text: Seq<char>) -> Seq<char>
    decreases text.len(),
{
    if text.len() > 0 && text.first() == '/' {
        trimmed_start(text.drop_first())
    } else {
        text
    }
}

/// Removes every slash at the end of `text`.
pub fn trim_end_slashes(text: &str) -> (trimmed: &str)
    ensures
        trimmed@ == trimmed_end(text@),
{
    let mut end: usize = text.unicode_len();
    assert(text@.subrange(0, end as int) =~= text@);
    while end > 0 && text.get_char(end - 1) == '/'
        invariant
            end <= text@.len(),
            trimmed_end(text@) == trimmed_end(text@.subrange(0, end as int)),
        decreases end,
    {
        assert(text@.subrange(0, end as int).drop_last() =~= text@.subrange(0, end - 1));
        end -= 1;
    }
    text.substring_char(0, end)
}

/// Removes every slash at the start of `text`.
pub fn trim_start_slashes(text: &str) -> (trimmed: &str)
    ensures
        trimmed@ == trimmed_start(text@),
{
    let length: usize = text.unicode_len();
    let mut start: usize = 0;
    assert(text@.subrange(0, length as int) =~= text@);
    while start < length && text.get_char(start) == '/'
        invariant
            start <= length,
            length == text@.len(),
            trimmed_start(text@) == trimmed_start(text@.subrange(start as int, length as int)),
        decreases length - start,
    {
        assert(text@.subrange(start as int, length as int).drop_first() =~= text@.subrange(
            start + 1,
            length as int,
        ));
        start += 1;
    }
    text.substring_char(start, length)
}

/// How messages spell a version that may be missing.
pub open spec fn version_text(version: Option<u64>) -> Seq<char> {
    match version {
        Some(number) => "Some("@ + decimal(number as nat) + ")"@,
        None => "None"@,
    }
}

/// A version that may be missing, as messages spell it.
pub fn version_to_text(version: Option<u64>) -> (text: String)
    ensures
        text@ == version_text(version),
{
    match version {
        Some(number) => {
            let digits: String = decimal_text(number);
            cat3("Some(", digits.as_str(), ")")
        },
        None => "None".to_owned(),
    }
}

/// How the `Debug` form of `str` in std spells a text: between double quotes, with
/// escapes where std writes them.
pub uninterp spec fn quoted_text(text: Seq<char>) -> Seq<char>;

/// Spells a text as the `Debug` form of `str` in std does. The claim is that the
/// same text is always spelled the same way; how single characters are escaped is
/// left to std.
#[verifier::external_body]
pub(crate) fn quote(text: &str) -> (quoted: String)
    ensures
        quoted@ == quoted_text(text@),
{
    format!("{:?}", text)
}

/// How messages spell a name that may be missing.
pub open spec fn name_text(name: Option<Seq<char>>) -> Seq<char> {
    match name {
        Some(text) => "Some("@ + quoted_text(text) + ")"@,
        None => "None"@,
    }
}

/// A name that may be missing, as messages spell it.
pub fn name_to_text(name: &Option<String>) -> (text: String)
    ensures
        text@ == name_text(opt_view(*name)),
{
    match name {
        Some(text) => {
            let quoted: String = quote(text.as_str());
            cat3("Some(", quoted.as_str(), ")")
        },
        None => "None".to_owned(),
    }
}

} // verus!
