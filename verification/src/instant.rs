use vstd::prelude::*;

verus! {

/// Smallest instant, in nanoseconds since the Unix epoch, that the
/// serialized timestamp form can represent.
pub const MIN_INSTANT_NANOS: i128 = -377705023201000000000;

/// Largest instant, in nanoseconds since the Unix epoch, that the
/// serialized timestamp form can represent.
pub const MAX_INSTANT_NANOS: i128 = 253402207200999999999;

/// The instant lies in the representable range of the serialized form.
pub open spec fn valid_instant(n: int) -> bool {
    MIN_INSTANT_NANOS <= n <= MAX_INSTANT_NANOS
}

/// The serialized text of an instant: its RFC 3339 rendering in UTC.
/// The text is a function of the instant alone.
pub uninterp spec fn instant_text(n: int) -> Seq<char>;

/// The instant a timestamp text parses to, if it parses at all.
/// The result is a function of the text alone.
pub uninterp spec fn instant_of_text(s: Seq<char>) -> Option<int>;

/// Relies on `jiff::Timestamp::from_nanosecond` and the RFC 3339 `Display`
/// of `jiff::Timestamp`: the text depends on the instant alone, and the
/// crate's `FromStr` parses that text back to the same instant.
#[verifier::external_body]
pub fn format_instant(n: i128) -> (r: String)
    requires
        valid_instant(n as int),
    ensures
        r@ == instant_text(n as int),
        instant_of_text(r@) == Some(n as int),
{
    match jiff::Timestamp::from_nanosecond(n) {
        Ok(t) => t.to_string(),
        Err(_) => String::new(),
    }
}

/// Relies on the `FromStr` of `jiff::Timestamp`: the parse is a function of
/// the text alone, and every instant it accepts lies in the representable
/// range.
#[verifier::external_body]
pub fn parse_instant(s: &str) -> (r: Option<i128>)
    ensures
        match r {
            Some(n) => instant_of_text(s@) == Some(n as int) && valid_instant(n as int),
            None => instant_of_text(s@) is None,
        },
{
    match s.parse::<jiff::Timestamp>() {
        Ok(t) => Some(t.as_nanosecond()),
        Err(_) => None,
    }
}

/// Relies on `jiff::tz::TimeZone::get`.  Whether a zone name resolves
/// depends on the installed zone database, so nothing is stated of the
/// result; callers handle both outcomes.
#[verifier::external_body]
pub fn resolve_tz(name: &str) -> bool {
    jiff::tz::TimeZone::get(name).is_ok()
}

} // verus!
