//! The calls into other crates: JSON text (serde_json), clock and calendar
//! (chrono) and random identifiers (uuid). What these functions are believed
//! to do is stated here and proved nowhere.
use vstd::prelude::*;
use serde_json::Value;
use crate::depth;
use crate::json::{Json, JsonV, Number, Raw};
use crate::json;
use crate::text;

verus! {

/// A number that is no integer: the decimal text that serde_json prints for
/// it. Only this module makes one.
#[derive(Debug)]
pub struct Real {
    text: String,
}

impl Real {
    pub closed spec fn view(&self) -> Seq<char> {
        self.text@
    }

    /// The decimal text of the number.
    pub fn spelling(&self) -> (r: &str)
        ensures
            r@ == self@,
    {
        self.text.as_str()
    }

    /// The same number again.
    pub fn copy(&self) -> (r: Real)
        ensures
            r == *self,
    {
        Real { text: self.text.clone() }
    }
}

/// `serde_json::Value`, the tree that serde_json parses into and prints from.
#[verifier::external_type_specification]
#[verifier::external_body]
pub struct ExValue(serde_json::Value);

/// What a `serde_json::Value` holds: integers by value, other numbers by the
/// text serde_json prints for them, objects by their members.
pub uninterp spec fn value_contents(value: serde_json::Value) -> JsonV;

/// What `serde_json::from_str` makes of a text: the value in it, or the text
/// of its error.
pub uninterp spec fn parsed_json(text: Seq<char>) -> Result<JsonV, Seq<char>>;

/// A text parses to a value.
pub open spec fn parses_to(text: Seq<char>, value: JsonV) -> bool {
    parsed_json(text) == Ok::<JsonV, Seq<char>>(value)
}

/// A text does not parse, with this error.
pub open spec fn parse_fails(text: Seq<char>, error: Seq<char>) -> bool {
    parsed_json(text) == Err::<JsonV, Seq<char>>(error)
}

/// The text that `serde_json::to_string_pretty` prints for a value.
pub uninterp spec fn pretty_json(value: JsonV) -> Seq<char>;

/// The text that `serde_json::to_string` prints for a value.
pub uninterp spec fn compact_json(value: JsonV) -> Seq<char>;

/// A text parses to a value that is the same but for the digits of reals.
pub open spec fn parses_alike(text: Seq<char>, value: JsonV) -> bool {
    match parsed_json(text) {
        Ok(read) => json::alike(value, read),
        Err(_) => false,
    }
}

/// A value that was read is nested no deeper than the parser follows.
spec fn outcome_shallow(outcome: Result<serde_json::Value, String>) -> bool {
    match outcome {
        Ok(value) => depth::is_shallow(value_contents(value)),
        Err(_) => true,
    }
}

spec fn outcome_contents(outcome: Result<serde_json::Value, String>) -> Result<JsonV, Seq<char>> {
    match outcome {
        Ok(value) => Ok(value_contents(value)),
        Err(error) => Err(error@),
    }
}

/// `serde_json::from_str` into a `serde_json::Value`: its outcome depends on
/// the text alone, and a value that it gives is nested at most 127 deep, since
/// the parser refuses anything deeper.
#[verifier::external_body]
fn parse_value(text: &str) -> (r: Result<serde_json::Value, String>)
    ensures
        parsed_json(text@) == outcome_contents(r),
        outcome_shallow(r),
{
    serde_json::from_str(text).map_err(|error: serde_json::Error| error.to_string())
}

/// Takes a `serde_json::Value` apart, variant by variant. `Number::as_u64`
/// and `as_i64` give the value of every integer; any other number keeps the
/// text that its `Display` prints.
#[verifier::external_body]
fn take_apart(value: serde_json::Value) -> (r: Raw)
    ensures
        r@ == value_contents(value),
{
    match value {
        Value::Null => Raw::Null,
        Value::Bool(b) => Raw::Bool(b),
        Value::Number(n) => Raw::Number(match (n.as_u64(), n.as_i64()) {
            (Some(u), _) => Number::Unsigned(u),
            (_, Some(i)) => Number::Negative(i),
            _ => Number::Real(Real { text: n.to_string() }),
        }),
        Value::String(t) => Raw::Text(t),
        Value::Array(items) => Raw::Array(items.into_iter().map(take_apart).collect()),
        Value::Object(map) => Raw::Object(
            map.into_iter().map(|(k, v)| (k, take_apart(v))).collect()),
    }
}

/// Builds the `serde_json::Value` of a value, variant by variant. The text of
/// a real number is one that serde_json printed, so it parses to a finite
/// number and `Number::from_f64` takes it.
#[verifier::external_body]
fn put_together(value: &Json) -> (r: serde_json::Value)
    ensures
        value_contents(r) == value@,
{
    match value {
        Json::Null => Value::Null,
        Json::Bool(b) => Value::Bool(*b),
        Json::Number(Number::Unsigned(n)) => Value::from(*n),
        Json::Number(Number::Negative(n)) => Value::from(*n),
        Json::Number(Number::Real(r)) => Value::from(
            serde_json::Number::from_f64(r.text.parse().unwrap()).unwrap()),
        Json::Text(t) => Value::String(t.clone()),
        Json::Array(items) => items.iter().map(put_together).collect(),
        Json::Object(o) => {
            o.list().iter().map(|(k, v)| (k.clone(), put_together(v))).collect()
        },
    }
}

/// `serde_json::to_string_pretty` of a `serde_json::Value`, which has text
/// names only and so always prints. What it prints reads back, also with a
/// line end behind it, where the value is not too deep. Reals read back as
/// reals, with digits that the parser, which rounds without the feature
/// `float_roundtrip`, may change: the text of the largest one, whose seventeen
/// digits times 1e292 stay finite, still reads as a number, and so does that
/// of every smaller one.
#[verifier::external_body]
fn print_pretty(value: &serde_json::Value) -> (r: String)
    ensures
        r@ == pretty_json(value_contents(*value)),
        depth::is_shallow(value_contents(*value)) ==> parses_alike(
            r@ + "\n"@,
            value_contents(*value),
        ),
{
    serde_json::to_string_pretty(value).unwrap()
}

/// `serde_json::to_string` of a `serde_json::Value`, which has text names only
/// and so always prints something, on one line: line ends within texts are
/// escaped. What it prints reads back where the value is not too deep, but for
/// the digits of reals.
#[verifier::external_body]
fn print_compact(value: &serde_json::Value) -> (r: String)
    ensures
        r@ == compact_json(value_contents(*value)),
        depth::is_shallow(value_contents(*value)) ==> parses_alike(r@, value_contents(*value)),
        r@.len() > 0,
        forall|i: int| 0 <= i < r@.len() ==> #[trigger] r@[i] != '\n' && r@[i] != '\r',
{
    serde_json::to_string(value).unwrap()
}

/// What a text reads as: no number, with the words of the error, or a number,
/// with the text that serde_json prints for it where it is finite.
pub uninterp spec fn real_reading(text: Seq<char>) -> Result<Option<Seq<char>>, Seq<char>>;

spec fn reading_contents(reading: Result<Option<Real>, String>) -> Result<
    Option<Seq<char>>,
    Seq<char>,
> {
    match reading {
        Ok(Some(number)) => Ok(Some(number@)),
        Ok(None) => Ok(None),
        Err(error) => Err(error@),
    }
}

/// `str::parse` of a text to a floating-point number, which is handed on as
/// the text that serde_json prints for it: the outcome depends on the text
/// alone. `serde_json::Number::from_f64` takes finite numbers only.
#[verifier::external_body]
fn read_real(text: &str) -> (r: Result<Option<Real>, String>)
    ensures
        real_reading(text@) == reading_contents(r),
{
    match text.parse() {
        Ok(number) => Ok(
            serde_json::Number::from_f64(number).map(|n| Real { text: n.to_string() }),
        ),
        Err(error) => Err(std::num::ParseFloatError::to_string(&error)),
    }
}

/// The text with two decimal places of the number that
/// `serde_json::Value::as_f64` finds in a value.
pub uninterp spec fn two_places(value: JsonV) -> Option<Seq<char>>;

/// `serde_json::Value::as_f64`, printed with two decimal places: the outcome
/// depends on the value alone.
#[verifier::external_body]
fn print_two_places(value: &serde_json::Value) -> (r: Option<String>)
    ensures
        text::opt_string(r) == two_places(value_contents(*value)),
{
    value.as_f64().map(|number| format!("{number:.2}"))
}

/// The number in a value, with two decimal places.
pub fn rounded(value: &Json) -> (r: Option<String>)
    ensures
        text::opt_string(r) == two_places(value@),
{
    let tree = put_together(value);
    print_two_places(&tree)
}

/// The value in a JSON text, or the text of the parser's error.
pub fn parse_json(text: &str) -> (r: Result<Json, String>)
    ensures
        match r {
            Ok(value) => parses_to(text@, value@) && depth::is_shallow(value@),
            Err(error) => parse_fails(text@, error@),
        },
{
    match parse_value(text) {
        Ok(value) => {
            let raw = take_apart(value);
            Ok(crate::json::settle(&raw))
        },
        Err(error) => Err(error),
    }
}

/// The value as indented JSON text.
pub fn pretty(value: &Json) -> (r: String)
    ensures
        r@ == pretty_json(value@),
        depth::is_shallow(value@) ==> parses_alike(r@ + "\n"@, value@),
{
    let tree = put_together(value);
    print_pretty(&tree)
}

/// The value as JSON text on one line.
pub fn compact(value: &Json) -> (r: String)
    ensures
        r@ == compact_json(value@),
        depth::is_shallow(value@) ==> parses_alike(r@, value@),
        r@.len() > 0,
        forall|i: int| 0 <= i < r@.len() ==> #[trigger] r@[i] != '\n' && r@[i] != '\r',
{
    let tree = put_together(value);
    print_compact(&tree)
}

/// A point in time as chrono counts it: seconds since the epoch and
/// nanoseconds within the second. Only this module makes one.
#[derive(Debug, Clone, Copy)]
pub struct Moment {
    seconds: i64,
    nanos: u32,
}

impl Moment {
    pub closed spec fn view(&self) -> (int, int) {
        (self.seconds as int, self.nanos as int)
    }
}

/// The view of an optional point in time.
pub open spec fn opt_moment(value: Option<Moment>) -> Option<(int, int)> {
    match value {
        Some(moment) => Some(moment@),
        None => None,
    }
}

/// The time that `chrono::NaiveDateTime::parse_from_str` reads from a text
/// with the format `%Y-%m-%d %H:%M:%S`.
pub uninterp spec fn plain_time(text: Seq<char>) -> Option<(int, int)>;

/// The local time that `chrono::DateTime::parse_from_rfc3339` reads from a
/// text.
pub uninterp spec fn rfc3339_time(text: Seq<char>) -> Option<(int, int)>;

/// The whole seconds of the difference that chrono computes between two
/// times.
pub uninterp spec fn seconds_between(later: (int, int), earlier: (int, int)) -> int;

/// The time lies within no leap second, which chrono counts as more than a
/// thousand million nanoseconds.
pub open spec fn is_ordinary(moment: (int, int)) -> bool {
    moment.1 < 1_000_000_000
}

/// The difference of two times in whole seconds, rounded towards zero.
pub open spec fn whole_seconds(later: (int, int), earlier: (int, int)) -> int {
    let nanos = (later.0 - earlier.0) * 1_000_000_000 + later.1 - earlier.1;
    if nanos >= 0 {
        nanos / 1_000_000_000
    } else {
        -((-nanos) / 1_000_000_000)
    }
}

/// `chrono::NaiveDateTime::parse_from_str`: its outcome depends on the text
/// alone.
#[verifier::external_body]
pub(crate) fn parse_plain_time(text: &str) -> (r: Option<Moment>)
    ensures
        opt_moment(r) == plain_time(text@),
{
    let time = chrono::NaiveDateTime::parse_from_str(text, "%Y-%m-%d %H:%M:%S").ok()?.and_utc();
    Some(Moment { seconds: time.timestamp(), nanos: time.timestamp_subsec_nanos() })
}

/// `chrono::DateTime::parse_from_rfc3339`, read as the local time of the
/// offset in the text: its outcome depends on the text alone.
#[verifier::external_body]
pub(crate) fn parse_rfc3339_time(text: &str) -> (r: Option<Moment>)
    ensures
        opt_moment(r) == rfc3339_time(text@),
{
    let time = chrono::DateTime::parse_from_rfc3339(text).ok()?.naive_local().and_utc();
    Some(Moment { seconds: time.timestamp(), nanos: time.timestamp_subsec_nanos() })
}

/// `chrono::NaiveDateTime::signed_duration_since` and
/// `chrono::TimeDelta::num_seconds` on two times that chrono made: outside
/// leap seconds, their difference in nanoseconds cut to whole seconds.
#[verifier::external_body]
pub(crate) fn elapsed_seconds(later: Moment, earlier: Moment) -> (r: i64)
    ensures
        r as int == seconds_between(later@, earlier@),
        is_ordinary(later@) && is_ordinary(earlier@) ==> r as int == whole_seconds(
            later@,
            earlier@,
        ),
{
    let later = chrono::DateTime::from_timestamp(later.seconds, later.nanos).unwrap();
    let earlier = chrono::DateTime::from_timestamp(earlier.seconds, earlier.nanos).unwrap();
    later.naive_utc().signed_duration_since(earlier.naive_utc()).num_seconds()
}

/// The local wall clock, `chrono::Local::now`, as a time without offset.
/// Nothing is said of the outcome: it is the time of the call.
#[verifier::external_body]
pub(crate) fn local_moment() -> (r: Moment) {
    let time = chrono::Local::now().naive_local().and_utc();
    Moment { seconds: time.timestamp(), nanos: time.timestamp_subsec_nanos() }
}

/// The local wall clock, `chrono::Local::now`, printed as
/// `%Y-%m-%d %H:%M:%S`, which `chrono::NaiveDateTime::parse_from_str` reads
/// with the same format. Nothing more is said: it is the time of the call.
#[verifier::external_body]
pub fn now() -> (r: String)
    ensures
        plain_time(r@) is Some,
{
    chrono::Local::now().format("%Y-%m-%d %H:%M:%S").to_string()
}

/// A stamp for identifiers ends with four digits for month and day, a hyphen,
/// and six digits for the time of day; before them stands the year.
pub open spec fn is_stamp(stamp: Seq<char>) -> bool {
    let n = stamp.len();
    &&& n >= 15
    &&& stamp[n - 7] == '-'
    &&& forall|i: int| n - 11 <= i < n && i != n - 7 ==> text::is_digit(#[trigger] stamp[i])
}

/// The local wall clock, `chrono::Local::now`, printed as `%Y%m%d-%H%M%S`: a
/// year of at least four characters, and two digits for each other part.
/// Nothing more is said: it is the time of the call.
#[verifier::external_body]
pub(crate) fn id_stamp() -> (r: String)
    ensures
        is_stamp(r@),
{
    chrono::Local::now().format("%Y%m%d-%H%M%S").to_string()
}

/// The milliseconds since the epoch lie within the years that chrono counts,
/// some 262 thousand before and after our own.
pub open spec fn is_chrono_ms(ms: int) -> bool {
    -9_000_000_000_000_000 <= ms <= 9_000_000_000_000_000
}

/// Milliseconds since the epoch, `chrono::Local::now` and
/// `chrono::DateTime::timestamp_millis`: within the years that chrono counts.
/// Which they are is the time of the call.
#[verifier::external_body]
pub fn utc_ms() -> (r: i64)
    ensures
        is_chrono_ms(r as int),
{
    chrono::Local::now().timestamp_millis()
}

/// A character that `uuid` prints: a digit or a small letter up to f.
pub open spec fn hex_digit(c: char) -> bool {
    ('0' <= c && c <= '9') || ('a' <= c && c <= 'f')
}

/// A row of so many hexadecimal digits.
pub open spec fn is_token(text: Seq<char>, len: nat) -> bool {
    text.len() == len && forall|i: int| 0 <= i < len ==> hex_digit(#[trigger] text[i])
}

/// Rows of so many hexadecimal digits each.
pub open spec fn are_tokens(texts: Seq<Seq<char>>, len: nat) -> bool {
    forall|i: int| 0 <= i < texts.len() ==> is_token(#[trigger] texts[i], len)
}

/// A random identifier, `uuid::Uuid::new_v4`, printed without hyphens: always
/// 32 hexadecimal digits. Which ones is chance.
#[verifier::external_body]
fn random_id() -> (r: String)
    ensures
        r@.len() == 32,
        forall|i: int| 0 <= i < 32 ==> hex_digit(#[trigger] r@[i]),
{
    uuid::Uuid::new_v4().simple().to_string()
}

/// The first `len` digits of a random identifier.
pub fn short_uuid(len: usize) -> (r: String)
    requires
        len <= 32,
    ensures
        is_token(r@, len as nat),
{
    let id = random_id();
    text::slice(id.as_str(), 0, len)
}

/// Puts a random row of `len` digits behind others.
pub(crate) fn push_token(tokens: &mut Vec<String>, len: usize)
    requires
        len <= 32,
    ensures
        final(tokens)@.len() == old(tokens)@.len() + 1,
        are_tokens(text::texts(old(tokens)@), len as nat) ==> are_tokens(
            text::texts(final(tokens)@),
            len as nat,
        ),
{
    let ghost before = text::texts(tokens@);
    let token = short_uuid(len);
    tokens.push(token);
    proof {
        let after = text::texts(tokens@);
        assert(after =~= before.push(token@));
        assert forall|i: int| are_tokens(before, len as nat) && 0 <= i < after.len() implies is_token(
            #[trigger] after[i],
            len as nat,
        ) by {
            if i < before.len() {
                assert(after[i] == before[i]);
            }
        }
    }
}

/// The outcome of reading a number that is written out as a decimal fraction.
pub enum Reading {
    /// No number, with the words of the error.
    Unreadable(String),
    /// Infinite, or not a number at all.
    Unbounded,
    /// A finite number.
    Finite(Real),
}

/// Reads a number that is written out as a decimal fraction.
pub fn read_number(text: &str) -> (r: Reading)
    ensures
        match r {
            Reading::Unreadable(error) => real_reading(text@) == Err::<
                Option<Seq<char>>,
                Seq<char>,
            >(error@),
            Reading::Unbounded => real_reading(text@) == Ok::<Option<Seq<char>>, Seq<char>>(None),
            Reading::Finite(number) => real_reading(text@) == Ok::<Option<Seq<char>>, Seq<char>>(
                Some(number@),
            ),
        },
{
    match read_real(text) {
        Ok(Some(number)) => Reading::Finite(number),
        Ok(None) => Reading::Unbounded,
        Err(error) => Reading::Unreadable(error),
    }
}

/// The directory that `std::path::Path::parent` finds for a path.
pub uninterp spec fn path_parent(path: Seq<char>) -> Option<Seq<char>>;

/// `std::path::Path::parent`: the path without its last component, which the
/// text of the path alone decides.
#[verifier::external_body]
pub(crate) fn parent_dir(path: &str) -> (r: Option<String>)
    ensures
        text::opt_string(r) == path_parent(path@),
{
    std::path::Path::new(path).parent().map(|dir| dir.to_string_lossy().into_owned())
}

} // verus!
