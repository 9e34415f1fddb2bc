use vstd::prelude::*;
use vstd::string::*;

verus! {

/// Milliseconds since the epoch of the ISO 8601 civil date-time `iso`
/// (such as `2024-01-01T12:00:00`) read as UTC; `None` where it is refused.
pub uninterp spec fn utc_millis_of(iso: Seq<char>) -> Option<i64>;

/// Relies on jiff's `civil::DateTime` parser and `DateTime::to_zoned` in
/// UTC, read back by `Timestamp::as_millisecond`: a function of the text.
#[verifier::external_body]
fn civil_utc_millis(iso: &str) -> (r: Option<i64>)
    ensures
        r == utc_millis_of(iso@),
{
    let dt: jiff::civil::DateTime = iso.parse().ok()?;
    let zoned = dt.to_zoned(jiff::tz::TimeZone::UTC).ok()?;
    Some(zoned.timestamp().as_millisecond())
}

/// The text `jiff::fmt::strtime::format` writes for the UTC instant `ms`
/// with the directives `pattern`; `None` where it fails.
pub uninterp spec fn utc_text_of(ms: i64, pattern: Seq<char>) -> Option<Seq<char>>;

/// Relies on `jiff::Timestamp::from_millisecond` and
/// `jiff::fmt::strtime::format`: a function of the instant and the pattern.
#[verifier::external_body]
fn format_utc(ms: i64, pattern: &str) -> (r: Option<String>)
    ensures
        match r {
            Some(t) => utc_text_of(ms, pattern@) == Some(t@),
            None => utc_text_of(ms, pattern@) is None,
        },
{
    let ts = jiff::Timestamp::from_millisecond(ms).ok()?;
    jiff::fmt::strtime::format(pattern, ts).ok()
}

/// Relies on `jiff::Timestamp::try_from(SystemTime)`: the clock, in
/// milliseconds since the epoch, when jiff can represent it.
#[verifier::external_body]
pub(crate) fn now_millis() -> (r: Option<i64>) {
    let ts = jiff::Timestamp::try_from(std::time::SystemTime::now()).ok()?;
    Some(ts.as_millisecond())
}

/// Directives of the date-time fields of the search form.
pub open spec fn seconds_pattern() -> Seq<char> {
    "%Y-%m-%d %H:%M:%S"@
}

/// Directives of a calendar date.
pub open spec fn date_pattern() -> Seq<char> {
    "%Y-%m-%d"@
}

/// The UTC time `ms` as `YYYY-MM-DD HH:MM:SS`, or nothing where it cannot
/// be written.
pub open spec fn seconds_text(ms: i64) -> Seq<char> {
    match utc_text_of(ms, seconds_pattern()) {
        Some(t) => t,
        None => Seq::empty(),
    }
}

/// The UTC date of `ms` as `YYYY-MM-DD`, or nothing where it cannot be
/// written.
pub open spec fn date_text(ms: i64) -> Seq<char> {
    match utc_text_of(ms, date_pattern()) {
        Some(t) => t,
        None => Seq::empty(),
    }
}

/// Writes the UTC time `ms` as `YYYY-MM-DD HH:MM:SS`.
pub fn format_seconds(ms: i64) -> (r: String)
    ensures
        r@ == seconds_text(ms),
{
    let pattern = "%Y-%m-%d %H:%M:%S";
    match format_utc(ms, pattern) {
        Some(t) => t,
        None => String::new(),
    }
}

/// Writes the UTC date of `ms` as `YYYY-MM-DD`.
pub fn format_date(ms: i64) -> (r: String)
    ensures
        r@ == date_text(ms),
{
    let pattern = "%Y-%m-%d";
    match format_utc(ms, pattern) {
        Some(t) => t,
        None => String::new(),
    }
}

/// `p` is the first space of `s`.
pub open spec fn first_space_at(s: Seq<char>, p: int) -> bool {
    &&& 0 <= p < s.len()
    &&& s[p] == ' '
    &&& forall|j: int| 0 <= j < p ==> s[j] != ' '
}

/// `s` with its first space turned into `T`: the ISO form of
/// `YYYY-MM-DD HH:MM:SS`.
pub open spec fn iso_form(s: Seq<char>) -> Seq<char> {
    if exists|p: int| first_space_at(s, p) {
        let p = choose|p: int| first_space_at(s, p);
        s.subrange(0, p).push('T') + s.subrange(p + 1, s.len() as int)
    } else {
        s
    }
}

/// Turns the first space of `s` into `T`.
pub fn to_iso_form(s: &str) -> (r: String)
    ensures
        r@ == iso_form(s@),
{
    let n = s.unicode_len();
    let mut i: usize = 0;
    while i < n && s.get_char(i) != ' '
        invariant
            n == s@.len(),
            i <= n,
            forall|j: int| 0 <= j < i ==> s@[j] != ' ',
        decreases n - i,
    {
        i += 1;
    }
    if i == n {
        assert(!exists|p: int| first_space_at(s@, p));
        return s.to_owned();
    }
    assert(first_space_at(s@, i as int));
    assert forall|p: int| first_space_at(s@, p) implies p == i by {
        if p < i {
            assert(s@[p] != ' ');
        } else if p > i {
            assert(s@[i as int] != ' ');
        }
    }
    let mut out = s.substring_char(0, i).to_owned();
    out.push('T');
    out.append(s.substring_char(i + 1, n));
    out
}

/// The instant that a form field `YYYY-MM-DD HH:MM:SS` names, read as UTC.
pub open spec fn field_millis(s: Seq<char>) -> Option<i64> {
    utc_millis_of(iso_form(s))
}

/// Reads `YYYY-MM-DD HH:MM:SS`, as UTC, into milliseconds since the epoch.
pub fn parse_datetime_to_ms(s: &str) -> (r: Option<i64>)
    ensures
        r == field_millis(s@),
{
    let iso = to_iso_form(s);
    civil_utc_millis(iso.as_str())
}

} // verus!
