//! Typed path and query parameters: the text of a parameter is checked
//! against the type that the handler declares for it. Integers, booleans and
//! the form of floating-point numbers and UUIDs are checked here; calendar
//! values, UUIDs and decimals are read by the `chrono`, `uuid` and
//! `rust_decimal` crates and kept in their canonical text.

use vstd::prelude::*;

use crate::numbers::{
    i64_text, is_digit, lemma_signed_round_trip, read_i64, signed_decimal, signed_decimal_of,
    signed_text,
};
use crate::text::{ascii_lower, chars_of, has_suffix, lowercase, same_chars, slice_of, string_of};

verus! {

pub const TYPE_INT: u8 = 1;

pub const TYPE_FLOAT: u8 = 2;

pub const TYPE_BOOL: u8 = 3;

pub const TYPE_STRING: u8 = 4;

pub const TYPE_UUID: u8 = 5;

pub const TYPE_DATETIME: u8 = 6;

pub const TYPE_DECIMAL: u8 = 7;

pub const TYPE_DATE: u8 = 8;

pub const TYPE_TIME: u8 = 9;

/// The greatest length of a parameter value, in bytes.
pub const MAX_PARAM_LENGTH: usize = 4096;

/// A parameter value that was checked against its type.
#[derive(Debug, Clone)]
pub enum CoercedValue {
    Int(i64),
    /// A finite floating-point number, in the text that was given.
    Float(String),
    Bool(bool),
    String(String),
    /// A UUID in lower-case hyphenated form.
    Uuid(String),
    /// An instant in UTC, in RFC 3339 form.
    DateTime(String),
    /// A date and time of day without a zone.
    NaiveDateTime(String),
    /// A calendar date.
    Date(String),
    /// A time of day.
    Time(String),
    /// A decimal number.
    Decimal(String),
    Null,
}

/// The model of a `CoercedValue`.
pub enum CoercedModel {
    Int(i64),
    Float(Seq<char>),
    Bool(bool),
    Text(Seq<char>),
    Uuid(Seq<char>),
    DateTime(Seq<char>),
    NaiveDateTime(Seq<char>),
    Date(Seq<char>),
    Time(Seq<char>),
    Decimal(Seq<char>),
    Null,
}

impl View for CoercedValue {
    type V = CoercedModel;

    open spec fn view(&self) -> CoercedModel {
        match *self {
            CoercedValue::Int(v) => CoercedModel::Int(v),
            CoercedValue::Float(t) => CoercedModel::Float(t@),
            CoercedValue::Bool(b) => CoercedModel::Bool(b),
            CoercedValue::String(t) => CoercedModel::Text(t@),
            CoercedValue::Uuid(t) => CoercedModel::Uuid(t@),
            CoercedValue::DateTime(t) => CoercedModel::DateTime(t@),
            CoercedValue::NaiveDateTime(t) => CoercedModel::NaiveDateTime(t@),
            CoercedValue::Date(t) => CoercedModel::Date(t@),
            CoercedValue::Time(t) => CoercedModel::Time(t@),
            CoercedValue::Decimal(t) => CoercedModel::Decimal(t@),
            CoercedValue::Null => CoercedModel::Null,
        }
    }
}

/// The outcome of a coercion: the value, or the reason why there is none.
pub type Coercion = Result<CoercedModel, Seq<char>>;

/// The model of the outcome of a coercion.
pub open spec fn coercion_view(r: Result<CoercedValue, String>) -> Coercion {
    match r {
        Ok(v) => Ok(v@),
        Err(e) => Err(e@),
    }
}

/// The text that a value is written as.
pub open spec fn serialized(v: CoercedModel) -> Seq<char> {
    match v {
        CoercedModel::Int(n) => signed_decimal(n as int),
        CoercedModel::Float(t) => t,
        CoercedModel::Bool(b) => if b {
            "true"@
        } else {
            "false"@
        },
        CoercedModel::Text(t) => t,
        CoercedModel::Uuid(t) => t,
        CoercedModel::DateTime(t) => t,
        CoercedModel::NaiveDateTime(t) => t,
        CoercedModel::Date(t) => t,
        CoercedModel::Time(t) => t,
        CoercedModel::Decimal(t) => t,
        CoercedModel::Null => "null"@,
    }
}

impl CoercedValue {
    /// Writes the value as text.
    pub fn to_string_repr(&self) -> (s: String)
        ensures
            s@ == serialized(self@),
    {
        match self {
            CoercedValue::Int(v) => {
                let digits = signed_decimal_of(*v);
                string_of(digits.as_slice())
            },
            CoercedValue::Float(t) => t.clone(),
            CoercedValue::Bool(b) => if *b {
                "true".to_owned()
            } else {
                "false".to_owned()
            },
            CoercedValue::String(t) => t.clone(),
            CoercedValue::Uuid(t) => t.clone(),
            CoercedValue::DateTime(t) => t.clone(),
            CoercedValue::NaiveDateTime(t) => t.clone(),
            CoercedValue::Date(t) => t.clone(),
            CoercedValue::Time(t) => t.clone(),
            CoercedValue::Decimal(t) => t.clone(),
            CoercedValue::Null => "null".to_owned(),
        }
    }
}

/// A sign character.
pub open spec fn is_sign(c: char) -> bool {
    c == '+' || c == '-'
}

/// How many digits stand in `s` from position `from` on without a break.
pub open spec fn digit_run(s: Seq<char>, from: int) -> int
    decreases s.len() - from,
{
    if 0 <= from < s.len() && is_digit(s[from]) {
        1 + digit_run(s, from + 1)
    } else {
        0
    }
}

/// Whether `s` from position `at` on is an exponent and nothing else: `e` or
/// `E`, an optional sign, and at least one digit.
pub open spec fn exponent_at(s: Seq<char>, at: int) -> bool {
    0 <= at < s.len() && (s[at] == 'e' || s[at] == 'E') && {
        let digits = if at + 1 < s.len() && is_sign(s[at + 1]) {
            at + 2
        } else {
            at + 1
        };
        digit_run(s, digits) >= 1 && digits + digit_run(s, digits) == s.len()
    }
}

/// Whether `s` is a decimal floating-point numeral: an optional sign; digits
/// with an optional point among, before or after them; an optional exponent.
/// The words for infinity and not-a-number are no numerals.
pub open spec fn float_text(s: Seq<char>) -> bool {
    let start: int = if s.len() > 0 && is_sign(s[0]) {
        1
    } else {
        0
    };
    let whole = digit_run(s, start);
    let point = start + whole;
    let has_point = point < s.len() && s[point] == '.';
    let fraction = if has_point {
        digit_run(s, point + 1)
    } else {
        0
    };
    let rest = if has_point {
        point + 1 + fraction
    } else {
        point
    };
    whole + fraction >= 1 && (rest == s.len() || exponent_at(s, rest))
}

/// Whether `s` is one of the words for a value that is not finite, with an
/// optional sign, in any case.
pub open spec fn non_finite_text(s: Seq<char>) -> bool {
    let body = if s.len() > 0 && is_sign(s[0]) {
        ascii_lower(s.drop_first())
    } else {
        ascii_lower(s)
    };
    body == "inf"@ || body == "infinity"@ || body == "nan"@
}

/// The truth value that a text stands for, whatever its case: `true`, `1`,
/// `yes` and `on` are true; `false`, `0`, `no`, `off` and the empty text are
/// false.
pub open spec fn bool_text(s: Seq<char>) -> Option<bool> {
    let lower = ascii_lower(s);
    if lower == "true"@ || lower == "1"@ || lower == "yes"@ || lower == "on"@ {
        Some(true)
    } else if lower == "false"@ || lower == "0"@ || lower == "no"@ || lower == "off"@ || lower
        == ""@ {
        Some(false)
    } else {
        None
    }
}

/// A hexadecimal digit.
pub open spec fn is_hex(c: char) -> bool {
    is_digit(c) || ('a' <= c && c <= 'f') || ('A' <= c && c <= 'F')
}

/// Whether `s` has the canonical form of a UUID: 36 characters, hyphens at
/// positions 8, 13, 18 and 23, hexadecimal digits elsewhere.
pub open spec fn uuid_form(s: Seq<char>) -> bool {
    s.len() == 36 && forall|i: int|
        0 <= i < 36 ==> if i == 8 || i == 13 || i == 18 || i == 23 {
            #[trigger] s[i] == '-'
        } else {
            is_hex(s[i])
        }
}

/// The UUID that a text denotes, in lower-case hyphenated form, or why the
/// text denotes none.
pub uninterp spec fn uuid_parsed(text: Seq<char>) -> Result<Seq<char>, Seq<char>>;

/// The decimal number that a text denotes, as it is written back, or why the
/// text denotes none.
pub uninterp spec fn decimal_parsed(text: Seq<char>) -> Result<Seq<char>, Seq<char>>;

/// The instant that a text in RFC 3339 form denotes, in UTC and RFC 3339
/// form.
pub uninterp spec fn rfc3339_parsed(text: Seq<char>) -> Option<Seq<char>>;

/// The instant in UTC that a text denotes when it is read with a format as a
/// date and time in UTC, in RFC 3339 form.
pub uninterp spec fn utc_parsed(text: Seq<char>, format: Seq<char>) -> Option<Seq<char>>;

/// The date and time that a text denotes when it is read with a format, as
/// it is written back.
pub uninterp spec fn naive_parsed(text: Seq<char>, format: Seq<char>) -> Option<Seq<char>>;

/// The date that a text denotes when it is read with a format, as it is
/// written back, or why the text denotes none.
pub uninterp spec fn date_parsed(text: Seq<char>, format: Seq<char>) -> Result<
    Seq<char>,
    Seq<char>,
>;

/// The time of day that a text denotes when it is read with a format, as it
/// is written back.
pub uninterp spec fn time_parsed(text: Seq<char>, format: Seq<char>) -> Option<Seq<char>>;

/// The text of an optional string.
pub open spec fn some_text(s: Option<String>) -> Option<Seq<char>> {
    match s {
        Some(t) => Some(t@),
        None => None,
    }
}

/// What was read, or why nothing was read, as texts.
pub open spec fn read_text(r: Result<String, String>) -> Result<Seq<char>, Seq<char>> {
    match r {
        Ok(t) => Ok(t@),
        Err(e) => Err(e@),
    }
}

/// What was read, if anything was.
pub open spec fn ok_text(r: Result<Seq<char>, Seq<char>>) -> Option<Seq<char>> {
    match r {
        Ok(t) => Some(t),
        Err(_) => None,
    }
}

/// `uuid::Uuid::parse_str`, the UUID written back with `to_string`, or the
/// message of the error. A text in the canonical form is read as itself, in
/// lower case.
#[verifier::external_body]
fn parse_uuid(value: &str) -> (r: Result<String, String>)
    ensures
        read_text(r) == uuid_parsed(value@),
        uuid_form(value@) ==> ok_text(read_text(r)) == Some(ascii_lower(value@)),
{
    match uuid::Uuid::parse_str(value) {
        Ok(u) => Ok(u.to_string()),
        Err(e) => Err(e.to_string()),
    }
}

/// `rust_decimal::Decimal::from_str`, the number written back with
/// `to_string`.
#[verifier::external_body]
fn parse_decimal(value: &str) -> (r: Result<String, String>)
    ensures
        read_text(r) == decimal_parsed(value@),
{
    match value.parse::<rust_decimal::Decimal>() {
        Ok(d) => Ok(d.to_string()),
        Err(e) => Err(e.to_string()),
    }
}

/// `chrono::DateTime::parse_from_rfc3339`, moved to UTC and written back
/// with `to_rfc3339`.
#[verifier::external_body]
fn parse_rfc3339(value: &str) -> (r: Option<String>)
    ensures
        some_text(r) == rfc3339_parsed(value@),
{
    chrono::DateTime::parse_from_rfc3339(value).ok().map(
        |dt| dt.with_timezone(&chrono::Utc).to_rfc3339(),
    )
}

/// `chrono::NaiveDateTime::parse_from_str`, taken as UTC and written back
/// with `to_rfc3339`.
#[verifier::external_body]
fn parse_utc(value: &str, format: &str) -> (r: Option<String>)
    ensures
        some_text(r) == utc_parsed(value@, format@),
{
    chrono::NaiveDateTime::parse_from_str(value, format).ok().map(|dt| dt.and_utc().to_rfc3339())
}

/// `chrono::NaiveDateTime::parse_from_str`, written back with `to_string`.
#[verifier::external_body]
fn parse_naive(value: &str, format: &str) -> (r: Option<String>)
    ensures
        some_text(r) == naive_parsed(value@, format@),
{
    chrono::NaiveDateTime::parse_from_str(value, format).ok().map(|dt| dt.to_string())
}

/// `chrono::NaiveDate::parse_from_str`, written back with `to_string`.
#[verifier::external_body]
fn parse_date(value: &str, format: &str) -> (r: Result<String, String>)
    ensures
        read_text(r) == date_parsed(value@, format@),
{
    match chrono::NaiveDate::parse_from_str(value, format) {
        Ok(d) => Ok(d.to_string()),
        Err(e) => Err(e.to_string()),
    }
}

/// Midnight of a date, as a date and time: a date and time is written as
/// the date, a space, and the time of day.
pub open spec fn at_midnight(date: Option<Seq<char>>) -> Option<Seq<char>> {
    match date {
        Some(d) => Some(d + " 00:00:00"@),
        None => None,
    }
}

/// `chrono::NaiveTime::parse_from_str`, written back with `to_string`.
#[verifier::external_body]
fn parse_clock(value: &str, format: &str) -> (r: Option<String>)
    ensures
        some_text(r) == time_parsed(value@, format@),
{
    chrono::NaiveTime::parse_from_str(value, format).ok().map(|t| t.to_string())
}

/// The reason why a text is no 64-bit integer.
pub open spec fn int_error(value: Seq<char>) -> Seq<char> {
    if value.len() == 0 {
        "cannot parse integer from empty string"@
    } else {
        match signed_text(value) {
            None => "invalid digit found in string"@,
            Some(v) => if v > 0 {
                "number too large to fit in target type"@
            } else {
                "number too small to fit in target type"@
            },
        }
    }
}

/// A message that names the kind of value, the text that was given, and the
/// reason why the text is no such value.
pub open spec fn invalid(kind: Seq<char>, value: Seq<char>, reason: Seq<char>) -> Seq<char> {
    "Invalid "@ + kind + " '"@ + value + "': "@ + reason
}

/// What the text of an integer parameter is coerced to.
pub open spec fn coerced_int(value: Seq<char>) -> Coercion {
    match i64_text(value) {
        Some(v) => Ok(CoercedModel::Int(v)),
        None => Err(invalid("integer"@, value, int_error(value))),
    }
}

/// What the text of a floating-point parameter is coerced to. The words for
/// values that are not finite are taken only if that is allowed.
pub open spec fn coerced_float(value: Seq<char>, allow_non_finite: bool) -> Coercion {
    if float_text(value) || (allow_non_finite && non_finite_text(value)) {
        Ok(CoercedModel::Float(value))
    } else {
        Err(invalid("float"@, value, "invalid float literal"@))
    }
}

/// What the text of a boolean parameter is coerced to.
pub open spec fn coerced_bool(value: Seq<char>) -> Coercion {
    match bool_text(value) {
        Some(b) => Ok(CoercedModel::Bool(b)),
        None => Err(invalid("boolean"@, value, "expected true/false/1/0/yes/no/on/off"@)),
    }
}

/// What a UUID parameter is coerced to, given what the parser made of the
/// text. Only text in the canonical form is taken; a text that the parser
/// turns away is refused with the reason that the parser gives.
pub open spec fn coerced_uuid(value: Seq<char>, parsed: Result<Seq<char>, Seq<char>>) -> Coercion {
    match parsed {
        Ok(u) => if uuid_form(value) {
            Ok(CoercedModel::Uuid(u))
        } else {
            Err(invalid("UUID"@, value, "expected the canonical hyphenated form"@))
        },
        Err(e) => Err(invalid("UUID"@, value, e)),
    }
}

/// What the text of a UUID parameter is coerced to: a text in the canonical
/// form is the UUID that it writes, in lower case; any other text is
/// refused.
pub open spec fn uuid_coercion(value: Seq<char>) -> Coercion {
    if uuid_form(value) {
        Ok(CoercedModel::Uuid(ascii_lower(value)))
    } else {
        coerced_uuid(value, uuid_parsed(value))
    }
}

/// What a decimal parameter is coerced to, given what the parser made of the
/// text: the number, or a refusal with the reason that the parser gives.
pub open spec fn coerced_decimal(value: Seq<char>, parsed: Result<Seq<char>, Seq<char>>) -> Coercion {
    match parsed {
        Ok(d) => Ok(CoercedModel::Decimal(d)),
        Err(e) => Err(invalid("decimal"@, value, e)),
    }
}

/// What a date parameter is coerced to, given what the parser made of the
/// text: the date, or a refusal with the reason that the parser gives.
pub open spec fn coerced_date(value: Seq<char>, parsed: Result<Seq<char>, Seq<char>>) -> Coercion {
    match parsed {
        Ok(d) => Ok(CoercedModel::Date(d)),
        Err(e) => Err(invalid("date"@, value, e)),
    }
}

/// The first of two options that is some.
pub open spec fn either(a: Option<Seq<char>>, b: Option<Seq<char>>) -> Option<Seq<char>> {
    match a {
        Some(t) => Some(t),
        None => b,
    }
}

/// What a time parameter is coerced to, given what the parser made of the
/// text.
pub open spec fn coerced_time(value: Seq<char>, parsed: Option<Seq<char>>) -> Coercion {
    match parsed {
        Some(t) => Ok(CoercedModel::Time(t)),
        None => Err(invalid("time"@, value, "expected format HH:MM:SS or HH:MM"@)),
    }
}

/// What the parser made of the text of a date-time parameter, read in each
/// of the ways that are tried.
pub struct DateTimeReadings {
    /// As RFC 3339.
    pub rfc3339: Option<Seq<char>>,
    /// Without a final `Z`, as a date and time in UTC.
    pub utc: Option<Seq<char>>,
    /// As a date and time without a zone.
    pub naive: Option<Seq<char>>,
    /// As a date, at midnight.
    pub midnight: Option<Seq<char>>,
}

/// What a date-time parameter is coerced to: an instant if the text is in
/// RFC 3339 form, or ends in `Z` and is a date and time before that; else a
/// date and time without a zone if it is one, or midnight if it is a date.
pub open spec fn coerced_datetime(value: Seq<char>, r: DateTimeReadings) -> Coercion {
    match r.rfc3339 {
        Some(t) => Ok(CoercedModel::DateTime(t)),
        None => match (if has_suffix(value, seq!['Z']) {
            r.utc
        } else {
            None
        }) {
            Some(t) => Ok(CoercedModel::DateTime(t)),
            None => match r.naive {
                Some(t) => Ok(CoercedModel::NaiveDateTime(t)),
                None => match r.midnight {
                    Some(t) => Ok(CoercedModel::NaiveDateTime(t)),
                    None => Err(
                        invalid(
                            "datetime"@,
                            value,
                            "expected ISO 8601 format (e.g., 2024-01-15T10:30:00Z)"@,
                        ),
                    ),
                },
            },
        },
    }
}

/// The text without its last character (the whole text if it is empty).
pub open spec fn without_last(value: Seq<char>) -> Seq<char> {
    if value.len() > 0 {
        value.drop_last()
    } else {
        value
    }
}

/// The readings that the parser gives for the text of a date-time
/// parameter. Where several formats are tried, the first that fits gives the
/// reading: with and without fractional seconds, with `T` and with a space
/// between date and time.
pub open spec fn datetime_readings(value: Seq<char>) -> DateTimeReadings {
    DateTimeReadings {
        rfc3339: rfc3339_parsed(value),
        utc: either(
            utc_parsed(without_last(value), "%Y-%m-%dT%H:%M:%S%.f"@),
            utc_parsed(without_last(value), "%Y-%m-%dT%H:%M:%S"@),
        ),
        naive: either(
            naive_parsed(value, "%Y-%m-%dT%H:%M:%S%.f"@),
            either(
                naive_parsed(value, "%Y-%m-%dT%H:%M:%S"@),
                either(
                    naive_parsed(value, "%Y-%m-%d %H:%M:%S%.f"@),
                    either(
                        naive_parsed(value, "%Y-%m-%d %H:%M:%S"@),
                        naive_parsed(value, "%Y-%m-%d"@),
                    ),
                ),
            ),
        ),
        midnight: at_midnight(ok_text(date_parsed(value, "%Y-%m-%d"@))),
    }
}

/// The reading that the parser gives for the text of a time parameter: with
/// fractional seconds, with seconds, or with hours and minutes only.
pub open spec fn time_readings(value: Seq<char>) -> Option<Seq<char>> {
    either(
        time_parsed(value, "%H:%M:%S%.f"@),
        either(time_parsed(value, "%H:%M:%S"@), time_parsed(value, "%H:%M"@)),
    )
}

/// What the text of a parameter is coerced to for a type tag. A tag that
/// names no type leaves the text as it is.
pub open spec fn coerced(value: Seq<char>, type_hint: u8) -> Coercion {
    if type_hint == TYPE_INT {
        coerced_int(value)
    } else if type_hint == TYPE_FLOAT {
        coerced_float(value, false)
    } else if type_hint == TYPE_BOOL {
        coerced_bool(value)
    } else if type_hint == TYPE_UUID {
        uuid_coercion(value)
    } else if type_hint == TYPE_DATETIME {
        coerced_datetime(value, datetime_readings(value))
    } else if type_hint == TYPE_DECIMAL {
        coerced_decimal(value, decimal_parsed(value))
    } else if type_hint == TYPE_DATE {
        coerced_date(value, date_parsed(value, "%Y-%m-%d"@))
    } else if type_hint == TYPE_TIME {
        coerced_time(value, time_readings(value))
    } else {
        Ok(CoercedModel::Text(value))
    }
}

/// Writes the message for a text that is no value of a kind.
fn invalid_message(kind: &str, value: &str, reason: &str) -> (m: String)
    ensures
        m@ == invalid(kind@, value@, reason@),
{
    let mut m = "Invalid ".to_owned();
    vstd::string::StringExecFns::append(&mut m, kind);
    vstd::string::StringExecFns::append(&mut m, " '");
    vstd::string::StringExecFns::append(&mut m, value);
    vstd::string::StringExecFns::append(&mut m, "': ");
    vstd::string::StringExecFns::append(&mut m, reason);
    m
}

/// Counts the digits that stand in `s` from `from` on without a break.
fn count_digits(s: &[char], from: usize) -> (n: usize)
    requires
        from <= s.len(),
    ensures
        n == digit_run(s@, from as int),
        from + n <= s.len(),
{
    let mut i: usize = from;
    while i < s.len() && '0' <= s[i] && s[i] <= '9'
        invariant
            from <= i <= s.len(),
            digit_run(s@, from as int) == (i - from) + digit_run(s@, i as int),
        decreases s.len() - i,
    {
        i += 1;
    }
    i - from
}

/// Decides whether a text is a decimal floating-point numeral.
pub fn is_float_text(value: &str) -> (r: bool)
    ensures
        r == float_text(value@),
{
    let s = chars_of(value);
    let start: usize = if s.len() > 0 && (s[0] == '+' || s[0] == '-') {
        1
    } else {
        0
    };
    let whole = count_digits(s.as_slice(), start);
    let point: usize = start + whole;
    let has_point = point < s.len() && s[point] == '.';
    let fraction: usize = if has_point {
        count_digits(s.as_slice(), point + 1)
    } else {
        0
    };
    let rest: usize = if has_point {
        point + 1 + fraction
    } else {
        point
    };
    if whole + fraction < 1 {
        return false;
    }
    if rest == s.len() {
        return true;
    }
    if !(s[rest] == 'e' || s[rest] == 'E') {
        return false;
    }
    let digits: usize = if rest + 1 < s.len() && (s[rest + 1] == '+' || s[rest + 1] == '-') {
        rest + 2
    } else {
        rest + 1
    };
    let run = count_digits(s.as_slice(), digits);
    run >= 1 && digits + run == s.len()
}

/// Decides whether a text is a word for a value that is not finite.
pub fn is_non_finite_text(value: &str) -> (r: bool)
    ensures
        r == non_finite_text(value@),
{
    let s = chars_of(value);
    let body = if s.len() > 0 && (s[0] == '+' || s[0] == '-') {
        let rest = slice_of(s.as_slice(), 1, s.len());
        assert(rest@ =~= value@.drop_first());
        lowercase(rest.as_slice())
    } else {
        lowercase(s.as_slice())
    };
    let inf = chars_of("inf");
    let infinity = chars_of("infinity");
    let nan = chars_of("nan");
    same_chars(body.as_slice(), inf.as_slice()) || same_chars(body.as_slice(), infinity.as_slice())
        || same_chars(body.as_slice(), nan.as_slice())
}

/// Reads a truth value.
pub fn read_bool(value: &str) -> (r: Option<bool>)
    ensures
        r == bool_text(value@),
{
    let s = chars_of(value);
    let lower = lowercase(s.as_slice());
    let l = string_of(lower.as_slice());
    if l.as_str().eq("true") || l.as_str().eq("1") || l.as_str().eq("yes") || l.as_str().eq("on") {
        Some(true)
    } else if l.as_str().eq("false") || l.as_str().eq("0") || l.as_str().eq("no") || l.as_str().eq(
        "off",
    ) || l.as_str().eq("") {
        Some(false)
    } else {
        None
    }
}

/// Decides whether a text has the canonical form of a UUID.
pub fn has_uuid_form(value: &str) -> (r: bool)
    ensures
        r == uuid_form(value@),
{
    let s = chars_of(value);
    if s.len() != 36 {
        return false;
    }
    let mut i: usize = 0;
    while i < 36
        invariant
            i <= 36,
            s@ == value@,
            s@.len() == 36,
            forall|j: int|
                0 <= j < i ==> if j == 8 || j == 13 || j == 18 || j == 23 {
                    #[trigger] s@[j] == '-'
                } else {
                    is_hex(s@[j])
                },
        decreases 36 - i,
    {
        let c = s[i];
        let ok = if i == 8 || i == 13 || i == 18 || i == 23 {
            c == '-'
        } else {
            ('0' <= c && c <= '9') || ('a' <= c && c <= 'f') || ('A' <= c && c <= 'F')
        };
        if !ok {
            assert(!(if i == 8 || i == 13 || i == 18 || i == 23 {
                value@[i as int] == '-'
            } else {
                is_hex(value@[i as int])
            }));
            return false;
        }
        i += 1;
    }
    true
}

/// Coerces the text of an integer parameter.
pub fn coerce_int(value: &str) -> (r: Result<CoercedValue, String>)
    ensures
        coercion_view(r) == coerced_int(value@),
{
    let s = chars_of(value);
    match read_i64(s.as_slice()) {
        Some(v) => Ok(CoercedValue::Int(v)),
        None => {
            let reason: &str = if s.len() == 0 {
                "cannot parse integer from empty string"
            } else if !is_signed_text(s.as_slice()) {
                "invalid digit found in string"
            } else if s[0] == '-' {
                proof {
                    crate::numbers::lemma_decimal_round_trip(0);
                }
                "number too small to fit in target type"
            } else {
                "number too large to fit in target type"
            };
            Err(invalid_message("integer", value, reason))
        },
    }
}

/// Decides whether a text is a signed decimal numeral of any size.
fn is_signed_text(s: &[char]) -> (r: bool)
    ensures
        r == signed_text(s@) is Some,
{
    let start: usize = if s.len() > 0 && (s[0] == '+' || s[0] == '-') {
        1
    } else {
        0
    };
    if start == s.len() {
        proof {
            if start == 1 {
                assert(s@.drop_first().len() == 0);
            }
        }
        return false;
    }
    let ghost body = s@.skip(start as int);
    proof {
        if start == 1 {
            assert(s@.drop_first() =~= body);
        } else {
            assert(s@ =~= body);
        }
    }
    let mut i: usize = start;
    while i < s.len()
        invariant
            start <= i <= s.len(),
            body == s@.skip(start as int),
            start == 1 ==> s@.drop_first() == body,
            start == 0 ==> s@ == body,
            start == (if s@.len() > 0 && is_sign(s@[0]) {
                1usize
            } else {
                0usize
            }),
            forall|j: int| 0 <= j < i - start ==> is_digit(#[trigger] body[j]),
        decreases s.len() - i,
    {
        if !('0' <= s[i] && s[i] <= '9') {
            assert(!is_digit(body[i - start]));
            assert(!crate::numbers::all_digits(body));
            return false;
        }
        i += 1;
    }
    assert(crate::numbers::all_digits(body));
    true
}

/// Coerces the text of a floating-point parameter.
pub fn coerce_float(value: &str, allow_non_finite: bool) -> (r: Result<CoercedValue, String>)
    ensures
        coercion_view(r) == coerced_float(value@, allow_non_finite),
{
    if is_float_text(value) || (allow_non_finite && is_non_finite_text(value)) {
        Ok(CoercedValue::Float(value.to_owned()))
    } else {
        Err(invalid_message("float", value, "invalid float literal"))
    }
}

/// Coerces the text of a boolean parameter.
pub fn coerce_bool(value: &str) -> (r: Result<CoercedValue, String>)
    ensures
        coercion_view(r) == coerced_bool(value@),
{
    match read_bool(value) {
        Some(b) => Ok(CoercedValue::Bool(b)),
        None => Err(invalid_message("boolean", value, "expected true/false/1/0/yes/no/on/off")),
    }
}

/// Says what a UUID parameter is coerced to, given what the parser made of
/// the text.
pub fn coerce_uuid_from(value: &str, parsed: Result<String, String>) -> (r: Result<
    CoercedValue,
    String,
>)
    ensures
        coercion_view(r) == coerced_uuid(value@, read_text(parsed)),
{
    match parsed {
        Ok(u) => {
            if has_uuid_form(value) {
                Ok(CoercedValue::Uuid(u))
            } else {
                Err(invalid_message("UUID", value, "expected the canonical hyphenated form"))
            }
        },
        Err(e) => Err(invalid_message("UUID", value, e.as_str())),
    }
}

/// Says what a decimal parameter is coerced to, given what the parser made
/// of the text.
pub fn coerce_decimal_from(value: &str, parsed: Result<String, String>) -> (r: Result<
    CoercedValue,
    String,
>)
    ensures
        coercion_view(r) == coerced_decimal(value@, read_text(parsed)),
{
    match parsed {
        Ok(d) => Ok(CoercedValue::Decimal(d)),
        Err(e) => Err(invalid_message("decimal", value, e.as_str())),
    }
}

/// Says what a date parameter is coerced to, given what the parser made of
/// the text.
pub fn coerce_date_from(value: &str, parsed: Result<String, String>) -> (r: Result<
    CoercedValue,
    String,
>)
    ensures
        coercion_view(r) == coerced_date(value@, read_text(parsed)),
{
    match parsed {
        Ok(d) => Ok(CoercedValue::Date(d)),
        Err(e) => Err(invalid_message("date", value, e.as_str())),
    }
}

/// Says what a time parameter is coerced to, given what the parser made of
/// the text.
pub fn coerce_time_from(value: &str, parsed: Option<String>) -> (r: Result<CoercedValue, String>)
    ensures
        coercion_view(r) == coerced_time(value@, some_text(parsed)),
{
    match parsed {
        Some(t) => Ok(CoercedValue::Time(t)),
        None => Err(invalid_message("time", value, "expected format HH:MM:SS or HH:MM")),
    }
}

/// Says what a date-time parameter is coerced to, given the reading as an
/// instant and the reading as a date and time without a zone.
pub fn coerce_datetime_from(value: &str, instant: Option<String>, naive: Option<String>) -> (r:
    Result<CoercedValue, String>)
    ensures
        coercion_view(r) == (match some_text(instant) {
            Some(t) => Ok(CoercedModel::DateTime(t)),
            None => match some_text(naive) {
                Some(t) => Ok(CoercedModel::NaiveDateTime(t)),
                None => Err(
                    invalid(
                        "datetime"@,
                        value@,
                        "expected ISO 8601 format (e.g., 2024-01-15T10:30:00Z)"@,
                    ),
                ),
            },
        }),
{
    match instant {
        Some(t) => Ok(CoercedValue::DateTime(t)),
        None => match naive {
            Some(t) => Ok(CoercedValue::NaiveDateTime(t)),
            None => Err(
                invalid_message(
                    "datetime",
                    value,
                    "expected ISO 8601 format (e.g., 2024-01-15T10:30:00Z)",
                ),
            ),
        },
    }
}

/// Reads a text as an instant: as RFC 3339, or, if it ends in `Z`, as a date
/// and time in UTC before the `Z`.
fn read_instant(value: &str) -> (r: Option<String>)
    ensures
        some_text(r) == (match datetime_readings(value@).rfc3339 {
            Some(t) => Some(t),
            None => if has_suffix(value@, seq!['Z']) {
                datetime_readings(value@).utc
            } else {
                None
            },
        }),
{
    match parse_rfc3339(value) {
        Some(t) => {
            return Some(t);
        },
        None => {},
    }
    let s = chars_of(value);
    if s.len() > 0 && s[s.len() - 1] == 'Z' {
        assert(value@.subrange(value@.len() - 1, value@.len() as int) =~= seq!['Z']);
        let before = slice_of(s.as_slice(), 0, s.len() - 1);
        assert(before@ =~= without_last(value@));
        let text = string_of(before.as_slice());
        match parse_utc(text.as_str(), "%Y-%m-%dT%H:%M:%S%.f") {
            Some(t) => {
                return Some(t);
            },
            None => {},
        }
        parse_utc(text.as_str(), "%Y-%m-%dT%H:%M:%S")
    } else {
        proof {
            if has_suffix(value@, seq!['Z']) {
                assert(value@.subrange(value@.len() - 1, value@.len() as int)[0] == 'Z');
            }
        }
        None
    }
}

/// Reads a text as a date and time without a zone, with each format in
/// turn, or as a date, at midnight.
fn read_naive(value: &str) -> (r: Option<String>)
    ensures
        some_text(r) == either(datetime_readings(value@).naive, datetime_readings(value@).midnight),
{
    match parse_naive(value, "%Y-%m-%dT%H:%M:%S%.f") {
        Some(t) => {
            return Some(t);
        },
        None => {},
    }
    match parse_naive(value, "%Y-%m-%dT%H:%M:%S") {
        Some(t) => {
            return Some(t);
        },
        None => {},
    }
    match parse_naive(value, "%Y-%m-%d %H:%M:%S%.f") {
        Some(t) => {
            return Some(t);
        },
        None => {},
    }
    match parse_naive(value, "%Y-%m-%d %H:%M:%S") {
        Some(t) => {
            return Some(t);
        },
        None => {},
    }
    match parse_naive(value, "%Y-%m-%d") {
        Some(t) => {
            return Some(t);
        },
        None => {},
    }
    match parse_date(value, "%Y-%m-%d") {
        Ok(mut date) => {
            vstd::string::StringExecFns::append(&mut date, " 00:00:00");
            Some(date)
        },
        Err(_) => None,
    }
}

/// Coerces the text of a date-time parameter.
pub fn parse_datetime(value: &str) -> (r: Result<CoercedValue, String>)
    ensures
        coercion_view(r) == coerced_datetime(value@, datetime_readings(value@)),
{
    let instant = read_instant(value);
    match instant {
        Some(t) => coerce_datetime_from(value, Some(t), None),
        None => coerce_datetime_from(value, None, read_naive(value)),
    }
}

/// Coerces the text of a time parameter.
pub fn parse_time(value: &str) -> (r: Result<CoercedValue, String>)
    ensures
        coercion_view(r) == coerced_time(value@, time_readings(value@)),
{
    let first = match parse_clock(value, "%H:%M:%S%.f") {
        Some(t) => Some(t),
        None => match parse_clock(value, "%H:%M:%S") {
            Some(t) => Some(t),
            None => parse_clock(value, "%H:%M"),
        },
    };
    coerce_time_from(value, first)
}

/// Coerces the text of a parameter to the type that a tag names.
pub fn coerce_param(value: &str, type_hint: u8) -> (r: Result<CoercedValue, String>)
    ensures
        coercion_view(r) == coerced(value@, type_hint),
{
    if type_hint == TYPE_INT {
        coerce_int(value)
    } else if type_hint == TYPE_FLOAT {
        coerce_float(value, false)
    } else if type_hint == TYPE_BOOL {
        coerce_bool(value)
    } else if type_hint == TYPE_UUID {
        coerce_uuid_from(value, parse_uuid(value))
    } else if type_hint == TYPE_DATETIME {
        parse_datetime(value)
    } else if type_hint == TYPE_DECIMAL {
        coerce_decimal_from(value, parse_decimal(value))
    } else if type_hint == TYPE_DATE {
        coerce_date_from(value, parse_date(value, "%Y-%m-%d"))
    } else if type_hint == TYPE_TIME {
        parse_time(value)
    } else {
        Ok(CoercedValue::String(value.to_owned()))
    }
}

/// What a text is coerced to where a failure must not stop the request: an
/// integer that cannot be read is 0, a floating-point number that cannot be
/// read is `0`, a truth value is true for `true`, `1`, `yes` and `on` and
/// false for anything else, and any other type leaves the text as it is.
pub open spec fn coerced_leniently(value: Seq<char>, type_hint: u8) -> CoercedModel {
    if type_hint == TYPE_INT {
        CoercedModel::Int(
            match i64_text(value) {
                Some(v) => v,
                None => 0i64,
            },
        )
    } else if type_hint == TYPE_FLOAT {
        CoercedModel::Float(if float_text(value) {
            value
        } else {
            "0"@
        })
    } else if type_hint == TYPE_BOOL {
        CoercedModel::Bool(bool_text(value) == Some(true))
    } else {
        CoercedModel::Text(value)
    }
}

/// Coerces the text of a parameter of a basic type without failing.
pub fn coerce_to_py(value: &str, type_hint: u8) -> (r: CoercedValue)
    ensures
        r@ == coerced_leniently(value@, type_hint),
{
    if type_hint == TYPE_INT {
        let s = chars_of(value);
        CoercedValue::Int(
            match read_i64(s.as_slice()) {
                Some(v) => v,
                None => 0,
            },
        )
    } else if type_hint == TYPE_FLOAT {
        if is_float_text(value) {
            CoercedValue::Float(value.to_owned())
        } else {
            CoercedValue::Float("0".to_owned())
        }
    } else if type_hint == TYPE_BOOL {
        CoercedValue::Bool(
            match read_bool(value) {
                Some(b) => b,
                None => false,
            },
        )
    } else {
        CoercedValue::String(value.to_owned())
    }
}

/// The tags of the types whose accepted values are stated here in full:
/// integers, floating-point numbers, truth values, strings and UUIDs. What
/// is read of a date-time, a date, a time or a decimal number is what another
/// crate reads.
pub open spec fn is_basic(type_hint: u8) -> bool {
    type_hint != TYPE_DATETIME && type_hint != TYPE_DECIMAL && type_hint != TYPE_DATE && type_hint
        != TYPE_TIME
}

/// Lower case keeps the canonical form of a UUID, and lower case of lower
/// case is lower case.
pub proof fn lemma_lower_uuid(value: Seq<char>)
    requires
        uuid_form(value),
    ensures
        uuid_form(ascii_lower(value)),
        ascii_lower(ascii_lower(value)) == ascii_lower(value),
{
    let low = ascii_lower(value);
    assert forall|i: int| 0 <= i < 36 implies if i == 8 || i == 13 || i == 18 || i == 23 {
        #[trigger] low[i] == '-'
    } else {
        is_hex(low[i])
    } by {
        assert(low[i] == crate::text::lower_char(value[i]));
        if i == 8 || i == 13 || i == 18 || i == 23 {
            assert(value[i] == '-');
        } else {
            assert(is_hex(value[i]));
        }
    }
    assert forall|i: int| 0 <= i < low.len() implies crate::text::lower_char(#[trigger] low[i]) == low[i] by {
        assert(low[i] == crate::text::lower_char(value[i]));
    }
    assert(ascii_lower(low) =~= low);
}

/// For the basic types, writing a coerced value and coercing the text again
/// gives the same value.
pub proof fn lemma_coercion_idempotent(value: Seq<char>, type_hint: u8)
    requires
        is_basic(type_hint),
        coerced(value, type_hint) is Ok,
    ensures
        coerced(serialized(coerced(value, type_hint)->Ok_0), type_hint) == coerced(value, type_hint),
{
    if type_hint == TYPE_INT {
        lemma_signed_round_trip(i64_text(value)->0);
    } else if type_hint == TYPE_UUID {
        lemma_lower_uuid(value);
    } else if type_hint == TYPE_BOOL {
        reveal_strlit("true");
        reveal_strlit("false");
        reveal_strlit("1");
        reveal_strlit("0");
        reveal_strlit("yes");
        reveal_strlit("no");
        reveal_strlit("on");
        reveal_strlit("off");
        reveal_strlit("");
        assert(ascii_lower("true"@) =~= "true"@);
        assert(ascii_lower("false"@) =~= "false"@);
        assert("false"@.len() == 5);
        assert("true"@.len() == 4);
    }
}

} // verus!
