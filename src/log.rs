//! Log records: a time stamp, a category and a message on one line.
use vstd::prelude::*;
use crate::text::{push_char, trim, trimmed};

verus! {

/// The kind of a log record.
#[derive(Clone, Copy, Debug, PartialEq, Eq, Structural)]
pub enum Category {
    Error,
    Info,
    Request,
}

/// The name under which a category is written.
pub open spec fn category_name(c: Category) -> Seq<char> {
    match c {
        Category::Error => "Error"@,
        Category::Info => "Info"@,
        Category::Request => "Request"@,
    }
}

/// A record: `[stamp] Category: message` and a line feed.
pub open spec fn record_text(stamp: Seq<char>, c: Category, message: Seq<char>) -> Seq<char> {
    seq!['['] + stamp + "] "@ + category_name(c) + ": "@ + message + seq!['\n']
}

/// The message logged when a request arrives.
pub open spec fn request_text(address: Seq<char>, request: Seq<char>) -> Seq<char> {
    address + " - /"@ + trimmed(request)
}

/// The message logged when a request names nothing.
pub open spec fn missing_text(address: Seq<char>, request: Seq<char>) -> Seq<char> {
    request_text(address, request) + " doesn't exist!"@
}

impl Category {
    /// The name under which the category is written.
    pub fn name(&self) -> (r: String)
        ensures
            r@ == category_name(*self),
    {
        match self {
            Category::Error => String::from_str("Error"),
            Category::Info => String::from_str("Info"),
            Category::Request => String::from_str("Request"),
        }
    }
}

/// The record of `message` under `category`, stamped with `stamp`.
pub fn format_record(stamp: &str, category: Category, message: &str) -> (r: String)
    ensures
        r@ == record_text(stamp@, category, message@),
{
    let mut out = String::new();
    push_char(&mut out, '[');
    out.append(stamp);
    out.append("] ");
    let name = category.name();
    out.append(name.as_str());
    out.append(": ");
    out.append(message);
    push_char(&mut out, '\n');
    assert(out@ =~= record_text(stamp@, category, message@));
    out
}

/// A decimal digit.
pub open spec fn is_digit(c: char) -> bool {
    '0' <= c && c <= '9'
}

/// The shape of a time stamp `dd/mm/year HH:MM:SS.mmm`: two-digit day and
/// month, the year (four digits or more, perhaps with a sign), and the time
/// of day to the millisecond.
pub open spec fn is_stamp(s: Seq<char>) -> bool {
    let n = s.len();
    &&& n >= 23
    &&& is_digit(s[0]) && is_digit(s[1]) && s[2] == '/'
    &&& is_digit(s[3]) && is_digit(s[4]) && s[5] == '/'
    &&& s[n - 13] == ' ' && is_digit(s[n - 12]) && is_digit(s[n - 11]) && s[n - 10] == ':'
    &&& is_digit(s[n - 9]) && is_digit(s[n - 8]) && s[n - 7] == ':'
    &&& is_digit(s[n - 6]) && is_digit(s[n - 5]) && s[n - 4] == '.'
    &&& is_digit(s[n - 3]) && is_digit(s[n - 2]) && is_digit(s[n - 1])
}

/// Relies on chrono's `From<SystemTime> for DateTime<Utc>`, which also takes
/// clocks set before the Unix epoch (the system clock stays within chrono's
/// range of years), and on `DateTime::format` with
/// `%d/%m/%Y %H:%M:%S%.3f`: zero-padded two-digit day, month, hours, minutes
/// and seconds, a year of at least four digits (signed outside 0 to 9999),
/// and three digits of milliseconds after a `.`.
#[verifier::external_body]
fn timestamp() -> (r: String)
    ensures
        is_stamp(r@),
{
    let now = chrono::DateTime::<chrono::Utc>::from(std::time::SystemTime::now());
    now.format("%d/%m/%Y %H:%M:%S%.3f").to_string()
}

/// The record of `message` under `category`, stamped with the current time.
pub fn record(category: Category, message: &str) -> (r: String)
    ensures
        exists|stamp: Seq<char>| is_stamp(stamp) && r@ == record_text(stamp, category, message@),
{
    let stamp = timestamp();
    format_record(stamp.as_str(), category, message)
}

/// The message logged when `request` arrives from `address`.
pub fn request_message(address: &str, request: &str) -> (r: String)
    ensures
        r@ == request_text(address@, request@),
{
    let mut out = String::from_str(address);
    out.append(" - /");
    out.append(trim(request));
    assert(out@ =~= request_text(address@, request@));
    out
}

/// The message logged when `request` from `address` names nothing.
pub fn missing_message(address: &str, request: &str) -> (r: String)
    ensures
        r@ == missing_text(address@, request@),
{
    let mut out = request_message(address, request);
    out.append(" doesn't exist!");
    out
}

} // verus!
