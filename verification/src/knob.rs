//! Configuration knobs: each read from its one source, with no compiled-in
//! default behind it.

use vstd::prelude::*;
use vstd::string::*;

verus! {

/// What follows a knob's name when it is set but empty.
pub const EMPTY_TAIL: &'static str = " is set but EMPTY. It has no compiled-in default (ADR-0569), so there is nothing to fall back to. The chart renders it; a values override that nulls it produces exactly this.";

/// What follows a knob's name when it is not set.
pub const ABSENT_TAIL: &'static str = " is NOT SET. It has no compiled-in default (ADR-0569): this process reads it from the environment alone and refuses to start rather than invent a value. The chart renders it.";

/// The refusal for a knob that is set but empty.
pub open spec fn empty_message(key: Seq<char>) -> Seq<char> {
    key + EMPTY_TAIL@
}

/// The refusal for a knob that is not set.
pub open spec fn absent_message(key: Seq<char>) -> Seq<char> {
    key + ABSENT_TAIL@
}

pub(crate) proof fn lemma_tails_differ_at_four()
    ensures
        EMPTY_TAIL@.len() > 4,
        ABSENT_TAIL@.len() > 4,
        EMPTY_TAIL@[4] != ABSENT_TAIL@[4],
{
    reveal_strlit(" is set but EMPTY. It has no compiled-in default (ADR-0569), so there is nothing to fall back to. The chart renders it; a values override that nulls it produces exactly this.");
    reveal_strlit(" is NOT SET. It has no compiled-in default (ADR-0569): this process reads it from the environment alone and refuses to start rather than invent a value. The chart renders it.");
}

/// A required knob, given what its source holds (`None` when it is not set).
///
/// A set value is returned verbatim. An empty value refuses too, with its own
/// message, distinct from the one for an absent knob; both name the knob.
pub fn required_knob(key: &str, value: Option<String>) -> (knob: Result<String, String>)
    ensures
        value is Some && value->0@.len() > 0 ==> knob == Ok::<String, String>(value->0),
        value is Some && value->0@.len() == 0 ==> (knob matches Err(m) && m@ == empty_message(
            key@,
        )),
        value is None ==> (knob matches Err(m) && m@ == absent_message(key@)),
{
    match value {
        Some(v) => {
            if v.as_str().is_empty() {
                let mut message = String::from_str(key);
                message.append(EMPTY_TAIL);
                Err(message)
            } else {
                Ok(v)
            }
        },
        None => {
            let mut message = String::from_str(key);
            message.append(ABSENT_TAIL);
            Err(message)
        },
    }
}

/// Why a text is not a port number, in the order a left-to-right reading
/// meets them.
#[derive(Clone, Copy, Debug, PartialEq, Eq, Structural)]
pub enum NumberError {
    /// Nothing to read.
    Empty,
    /// A character that is not a decimal digit (a lone sign counts as one).
    InvalidDigit,
    /// The digits so far already exceed the largest port number.
    PosOverflow,
}

/// `c` is one of `0`..=`9`.
pub open spec fn is_decimal_digit(c: char) -> bool {
    48 <= (c as u32) <= 57
}

/// The value of a decimal digit.
pub open spec fn digit_value(c: char) -> nat {
    ((c as u32) - 48) as nat
}

/// Read `digits` left to right onto `acc`: the first character that is not a
/// digit refuses, and so does the first digit that takes the value past
/// `u16::MAX`.
pub open spec fn scan_u16(digits: Seq<char>, acc: nat) -> Result<u16, NumberError>
    decreases digits.len(),
{
    if digits.len() == 0 {
        Ok(acc as u16)
    } else if !is_decimal_digit(digits[0]) {
        Err(NumberError::InvalidDigit)
    } else if acc * 10 + digit_value(digits[0]) > u16::MAX {
        Err(NumberError::PosOverflow)
    } else {
        scan_u16(digits.drop_first(), acc * 10 + digit_value(digits[0]))
    }
}

/// A decimal `u16`, read as std reads one: an optional leading `+`, then one
/// or more decimal digits.
pub open spec fn parse_u16(text: Seq<char>) -> Result<u16, NumberError> {
    if text.len() == 0 {
        Err(NumberError::Empty)
    } else if text.len() == 1 && (text[0] == '+' || text[0] == '-') {
        Err(NumberError::InvalidDigit)
    } else if text[0] == '+' {
        scan_u16(text.drop_first(), 0)
    } else {
        scan_u16(text, 0)
    }
}

/// The numeral of a decimal digit `d`.
pub open spec fn numeral(d: nat) -> char {
    if d == 0 {
        '0'
    } else if d == 1 {
        '1'
    } else if d == 2 {
        '2'
    } else if d == 3 {
        '3'
    } else if d == 4 {
        '4'
    } else if d == 5 {
        '5'
    } else if d == 6 {
        '6'
    } else if d == 7 {
        '7'
    } else if d == 8 {
        '8'
    } else {
        '9'
    }
}

/// The decimal text of `n`, most significant digit first, with no leading
/// zeros.
pub open spec fn decimal_text(n: nat) -> Seq<char>
    decreases n,
{
    if n < 10 {
        seq![numeral(n)]
    } else {
        decimal_text(n / 10).push(numeral(n % 10))
    }
}

pub(crate) proof fn lemma_numeral(d: nat)
    requires
        d < 10,
    ensures
        is_decimal_digit(numeral(d)),
        digit_value(numeral(d)) == d,
{
}

pub(crate) proof fn lemma_scan_push(digits: Seq<char>, c: char, acc: nat, value: u16)
    requires
        acc <= u16::MAX,
        scan_u16(digits, acc) == Ok::<u16, NumberError>(value),
        is_decimal_digit(c),
    ensures
        value * 10 + digit_value(c) <= u16::MAX ==> scan_u16(digits.push(c), acc) == Ok::<
            u16,
            NumberError,
        >((value * 10 + digit_value(c)) as u16),
        value * 10 + digit_value(c) > u16::MAX ==> scan_u16(digits.push(c), acc) == Err::<
            u16,
            NumberError,
        >(NumberError::PosOverflow),
    decreases digits.len(),
{
    let pushed = digits.push(c);
    if digits.len() == 0 {
        assert(value == acc);
        assert(pushed.drop_first() =~= Seq::<char>::empty());
        assert(pushed[0] == c);
        let total = acc * 10 + digit_value(c);
        if total <= u16::MAX {
            assert(scan_u16(pushed, acc) == scan_u16(pushed.drop_first(), total));
            assert(scan_u16(Seq::<char>::empty(), total) == Ok::<u16, NumberError>(total as u16));
        }
    } else {
        assert(is_decimal_digit(digits[0]));
        let next = acc * 10 + digit_value(digits[0]);
        assert(next <= u16::MAX);
        assert(scan_u16(digits, acc) == scan_u16(digits.drop_first(), next));
        lemma_scan_push(digits.drop_first(), c, next, value);
        assert(pushed.drop_first() =~= digits.drop_first().push(c));
        assert(pushed[0] == digits[0]);
        assert(scan_u16(pushed, acc) == scan_u16(pushed.drop_first(), next));
    }
}

pub(crate) proof fn lemma_scan_push_refused(digits: Seq<char>, c: char, acc: nat)
    requires
        scan_u16(digits, acc) == Err::<u16, NumberError>(NumberError::PosOverflow),
    ensures
        scan_u16(digits.push(c), acc) == Err::<u16, NumberError>(NumberError::PosOverflow),
    decreases digits.len(),
{
    let pushed = digits.push(c);
    assert(digits.len() > 0);
    assert(pushed[0] == digits[0]);
    assert(pushed.drop_first() =~= digits.drop_first().push(c));
    if is_decimal_digit(digits[0]) && acc * 10 + digit_value(digits[0]) <= u16::MAX {
        lemma_scan_push_refused(digits.drop_first(), c, acc * 10 + digit_value(digits[0]));
    }
}

pub(crate) proof fn lemma_decimal_text_scans(n: nat)
    ensures
        n <= u16::MAX ==> scan_u16(decimal_text(n), 0) == Ok::<u16, NumberError>(n as u16),
        n > u16::MAX ==> scan_u16(decimal_text(n), 0) == Err::<u16, NumberError>(
            NumberError::PosOverflow,
        ),
        decimal_text(n).len() >= 1,
        is_decimal_digit(decimal_text(n)[0]),
    decreases n,
{
    let text = decimal_text(n);
    if n < 10 {
        lemma_numeral(n);
        assert(text == seq![numeral(n)]);
        assert(text.drop_first() =~= Seq::<char>::empty());
        assert(scan_u16(text, 0) == scan_u16(text.drop_first(), digit_value(numeral(n))));
        assert(scan_u16(Seq::<char>::empty(), n) == Ok::<u16, NumberError>(n as u16));
    } else {
        let head = decimal_text(n / 10);
        let last = numeral(n % 10);
        lemma_decimal_text_scans(n / 10);
        lemma_numeral(n % 10);
        assert(n == (n / 10) * 10 + n % 10);
        assert(text == head.push(last));
        assert(text[0] == head[0]);
        if n / 10 <= u16::MAX {
            let value = (n / 10) as u16;
            assert(value == n / 10);
            lemma_scan_push(head, last, 0, value);
        } else {
            lemma_scan_push_refused(head, last, 0);
        }
    }
}

/// Read a decimal port number.
pub fn parse_port_number(text: &str) -> (parsed: Result<u16, NumberError>)
    ensures
        parsed == parse_u16(text@),
{
    let len = text.unicode_len();
    if len == 0 {
        return Err(NumberError::Empty);
    }
    let first = text.get_char(0);
    if len == 1 && (first == '+' || first == '-') {
        return Err(NumberError::InvalidDigit);
    }
    let mut acc: u32 = 0;
    let mut pos: usize = 0;
    proof {
        broadcast use vstd::string::group_string_axioms;

        assert(text@.skip(0) =~= text@);
    }
    for c in it: text.chars()
        invariant
            it.seq() == text@,
            pos == it.index(),
            len == text@.len(),
            len >= 1,
            first == text@[0],
            !(len == 1 && (first == '+' || first == '-')),
            acc <= u16::MAX,
            pos == 0 ==> acc == 0,
            (pos == 0 && first == '+') || parse_u16(text@) == scan_u16(
                text@.skip(pos as int),
                acc as nat,
            ),
    {
        let ghost rest = text@.skip(pos as int);
        proof {
            assert(c == text@[pos as int]);
            assert(rest.drop_first() =~= text@.skip(pos + 1));
            if pos == 0 && first != '+' {
                assert(text@.skip(0) =~= text@);
            }
            if pos == 0 && first == '+' {
                assert(text@.drop_first() =~= text@.skip(1));
            }
        }
        if !(pos == 0 && first == '+') {
            let code = c as u32;
            if code < 48 || code > 57 {
                return Err(NumberError::InvalidDigit);
            }
            let next = acc * 10 + (code - 48);
            if next > 65535 {
                return Err(NumberError::PosOverflow);
            }
            acc = next;
        }
        pos += 1;
    }
    proof {
        assert(text@.skip(pos as int) =~= Seq::<char>::empty());
    }
    Ok(acc as u16)
}

/// The knob that names the storage service's port.
pub const PORT_KNOB: &'static str = "PROJECT_DB_PORT";

/// What follows the knob's name when its value is not a port number.
pub const PORT_REFUSAL: &'static str = " is not a port number: ";

/// How each refusal of a number reads.
pub open spec fn number_error_text(error: NumberError) -> Seq<char> {
    match error {
        NumberError::Empty => "cannot parse integer from empty string"@,
        NumberError::InvalidDigit => "invalid digit found in string"@,
        NumberError::PosOverflow => "number too large to fit in target type"@,
    }
}

impl NumberError {
    /// How the refusal reads.
    pub fn text(&self) -> (text: String)
        ensures
            text@ == number_error_text(*self),
    {
        match self {
            NumberError::Empty => String::from_str("cannot parse integer from empty string"),
            NumberError::InvalidDigit => String::from_str("invalid digit found in string"),
            NumberError::PosOverflow => String::from_str("number too large to fit in target type"),
        }
    }
}

/// The storage service's port, read from its knob's value; a value that is
/// not a port number refuses, naming the knob and why.
pub fn project_db_port(value: &str) -> (port: Result<u16, String>)
    ensures
        parse_u16(value@) matches Ok(n) ==> port == Ok::<u16, String>(n),
        parse_u16(value@) matches Err(e) ==> (port matches Err(m) && m@ == PORT_KNOB@
            + PORT_REFUSAL@ + number_error_text(e)),
{
    match parse_port_number(value) {
        Ok(n) => Ok(n),
        Err(e) => {
            let mut message = String::from_str(PORT_KNOB);
            message.append(PORT_REFUSAL);
            let why = e.text();
            message.append(why.as_str());
            Err(message)
        },
    }
}

} // verus!
