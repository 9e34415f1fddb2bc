use vstd::prelude::*;
use crate::text::{contains, find, first_index, is_infix};

verus! {

/// What `str::to_uppercase` makes of a text.
pub uninterp spec fn upper_of(s: Seq<char>) -> Seq<char>;

/// Relies on `str::to_uppercase`: the result depends on the characters
/// alone.
#[verifier::external_body]
fn to_upper(s: &str) -> (r: String)
    ensures
        r@ == upper_of(s@),
{
    s.to_uppercase()
}

/// How serious a log line says it is.
#[derive(Debug, Clone, Copy, PartialEq, Eq, Structural)]
pub enum Severity {
    Error,
    Warning,
    Info,
    Debug,
    Trace,
}

/// The level keywords in the order they are looked for: a longer spelling
/// before a shorter one it contains.
#[verifier::opaque]
pub open spec fn keyword_list() -> Seq<(Seq<char>, Severity)> {
    seq![
        ("CRITICAL"@, Severity::Error),
        ("FATAL"@, Severity::Error),
        ("ERROR"@, Severity::Error),
        ("ERR"@, Severity::Error),
        ("WARNING"@, Severity::Warning),
        ("WARN"@, Severity::Warning),
        ("INFO"@, Severity::Info),
        ("DEBUG"@, Severity::Debug),
        ("TRACE"@, Severity::Trace),
    ]
}

/// The first keyword of `kws` that occurs in `upper`: where it first
/// occurs, where it ends, and its severity.
pub open spec fn first_keyword(upper: Seq<char>, kws: Seq<(Seq<char>, Severity)>) -> Option<
    (int, int, Severity),
>
    decreases kws.len(),
{
    if kws.len() == 0 {
        None
    } else {
        match first_index(kws[0].0, upper) {
            Some(p) => Some((p, p + kws[0].0.len(), kws[0].1)),
            None => first_keyword(upper, kws.drop_first()),
        }
    }
}

/// The `i`-th entry of `keyword_list`.
fn keyword_at(i: usize) -> (r: (&'static str, Severity))
    requires
        i < 9,
    ensures
        (r.0@, r.1) == keyword_list()[i as int],
{
    reveal(keyword_list);
    if i == 0 {
        ("CRITICAL", Severity::Error)
    } else if i == 1 {
        ("FATAL", Severity::Error)
    } else if i == 2 {
        ("ERROR", Severity::Error)
    } else if i == 3 {
        ("ERR", Severity::Error)
    } else if i == 4 {
        ("WARNING", Severity::Warning)
    } else if i == 5 {
        ("WARN", Severity::Warning)
    } else if i == 6 {
        ("INFO", Severity::Info)
    } else if i == 7 {
        ("DEBUG", Severity::Debug)
    } else {
        ("TRACE", Severity::Trace)
    }
}

/// Splits `line` around its first level keyword, looked for in the line's
/// upper case: the text before it, the keyword as the line spells it, the
/// text after it, and its severity. Nothing when no keyword occurs, or when
/// upper-casing changes the number of characters.
pub fn level_keyword(line: &str) -> (r: Option<(&str, &str, &str, Severity)>)
    ensures
        match r {
            Some((b, k, a, sev)) => {
                &&& upper_of(line@).len() == line@.len()
                &&& first_keyword(upper_of(line@), keyword_list()) == Some(
                    (b@.len() as int, (b@.len() + k@.len()) as int, sev),
                )
                &&& b@ + k@ + a@ == line@
            },
            None => upper_of(line@).len() != line@.len() || first_keyword(
                upper_of(line@),
                keyword_list(),
            ) is None,
        },
{
    let upper = to_upper(line);
    let n = line.unicode_len();
    if upper.as_str().unicode_len() != n {
        return None;
    }
    let ghost u = upper@;
    let mut i: usize = 0;
    proof {
        reveal(keyword_list);
    }
    assert(keyword_list().len() == 9);
    assert(keyword_list().subrange(0, 9) =~= keyword_list());
    while i < 9
        invariant
            u == upper@,
            u == upper_of(line@),
            u.len() == n,
            n == line@.len(),
            i <= 9,
            keyword_list().len() == 9,
            first_keyword(u, keyword_list()) == first_keyword(u, keyword_list().subrange(i as int, 9)),
        decreases 9 - i,
    {
        let (kw, sev) = keyword_at(i);
        let ghost rest = keyword_list().subrange(i as int, 9);
        proof {
            lemma_first_keyword_step(u, rest);
            assert(rest[0] == keyword_list()[i as int]);
            assert(rest.drop_first() =~= keyword_list().subrange(i + 1, 9));
        }
        if let Some(p) = find(upper.as_str(), kw) {
            let len = kw.unicode_len();
            return Some(split_three(line, p, len, sev));
        }
        i += 1;
    }
    None
}

/// `line` cut at `p` and at `p + len`.
fn split_three(line: &str, p: usize, len: usize, sev: Severity) -> (r: (&str, &str, &str, Severity))
    requires
        p + len <= line@.len(),
    ensures
        r.0@ == line@.subrange(0, p as int),
        r.1@.len() == len,
        r.0@ + r.1@ + r.2@ == line@,
        r.3 == sev,
{
    let n = line.unicode_len();
    let before = line.substring_char(0, p);
    let word = line.substring_char(p, p + len);
    let after = line.substring_char(p + len, n);
    assert(before@ + word@ + after@ =~= line@);
    (before, word, after, sev)
}

proof fn lemma_first_keyword_step(u: Seq<char>, kws: Seq<(Seq<char>, Severity)>)
    requires
        kws.len() > 0,
    ensures
        first_keyword(u, kws) == match first_index(kws[0].0, u) {
            Some(p) => Some((p, p + kws[0].0.len(), kws[0].1)),
            None => first_keyword(u, kws.drop_first()),
        },
{
}

/// The severity a whole line is shown with: by the level words its upper
/// case holds.
pub open spec fn severity_of(upper: Seq<char>) -> Option<Severity> {
    if is_infix("ERROR"@, upper) || is_infix("FATAL"@, upper) || is_infix("CRITICAL"@, upper) {
        Some(Severity::Error)
    } else if is_infix("WARN"@, upper) {
        Some(Severity::Warning)
    } else if is_infix("DEBUG"@, upper) {
        Some(Severity::Debug)
    } else if is_infix("TRACE"@, upper) {
        Some(Severity::Trace)
    } else {
        None
    }
}

/// The severity a whole line is shown with.
pub fn line_severity(line: &str) -> (r: Option<Severity>)
    ensures
        r == severity_of(upper_of(line@)),
{
    let upper = to_upper(line);
    let u = upper.as_str();
    if contains(u, "ERROR") || contains(u, "FATAL") || contains(u, "CRITICAL") {
        Some(Severity::Error)
    } else if contains(u, "WARN") {
        Some(Severity::Warning)
    } else if contains(u, "DEBUG") {
        Some(Severity::Debug)
    } else if contains(u, "TRACE") {
        Some(Severity::Trace)
    } else {
        None
    }
}

} // verus!
