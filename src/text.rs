use vstd::prelude::*;
use vstd::string::*;

verus! {

/// Relies on `String::push`: the character goes to the end.
pub assume_specification[ String::push ](s: &mut String, ch: char)
    ensures
        final(s)@ == old(s)@.push(ch),
;

/// Relies on `String::pop`: the last character comes off, if there is one.
pub assume_specification[ String::pop ](s: &mut String) -> (r: Option<char>)
    ensures
        old(s)@.len() == 0 ==> r is None && final(s)@ == old(s)@,
        old(s)@.len() > 0 ==> r == Some(old(s)@.last()) && final(s)@ == old(s)@.drop_last(),
;

/// Relies on `String::clear`: the string becomes empty.
pub assume_specification[ String::clear ](s: &mut String)
    ensures
        final(s)@ == Seq::<char>::empty(),
;

/// What `str::to_lowercase` makes of a text.
pub uninterp spec fn lower_of(s: Seq<char>) -> Seq<char>;

/// Relies on `str::to_lowercase`: the result depends on the characters
/// alone, and an empty text stays empty.
#[verifier::external_body]
pub(crate) fn to_lower(s: &str) -> (r: String)
    ensures
        r@ == lower_of(s@),
        s@.len() == 0 ==> r@.len() == 0,
{
    s.to_lowercase()
}

/// `needle` occurs in `hay` as a contiguous run.
pub open spec fn is_infix(needle: Seq<char>, hay: Seq<char>) -> bool {
    exists|i: int|
        0 <= i <= hay.len() - needle.len() && #[trigger] hay.subrange(i, i + needle.len()) == needle
}

/// A copy of the text as characters.
pub fn chars_of(s: &str) -> (r: Vec<char>)
    ensures
        r@ == s@,
{
    let n = s.unicode_len();
    let mut out: Vec<char> = Vec::new();
    let mut i: usize = 0;
    while i < n
        invariant
            n == s@.len(),
            i <= n,
            out@ == s@.subrange(0, i as int),
        decreases n - i,
    {
        out.push(s.get_char(i));
        i += 1;
    }
    out
}

/// Whether `needle` occurs in `hay`.
pub fn contains(hay: &str, needle: &str) -> (r: bool)
    ensures
        r == is_infix(needle@, hay@),
{
    let h = chars_of(hay);
    let n = chars_of(needle);
    if n.len() > h.len() {
        return false;
    }
    let hl = h.len();
    let last = hl - n.len();
    let mut i: usize = 0;
    while i <= last
        invariant
            h@ == hay@,
            n@ == needle@,
            hl == h@.len(),
            last == h@.len() - n@.len(),
            i <= last,
            forall|j: int| 0 <= j < i ==> #[trigger] h@.subrange(j, j + n@.len()) != n@,
        decreases last - i,
    {
        let mut k: usize = 0;
        let mut same = true;
        while k < n.len()
            invariant
                h@ == hay@,
                n@ == needle@,
                i <= last,
                hl == h@.len(),
                last == h@.len() - n@.len(),
                k <= n@.len(),
                same <==> forall|m: int| 0 <= m < k ==> h@[i + m] == n@[m],
            decreases n@.len() - k,
        {
            if h[i + k] != n[k] {
                same = false;
            }
            k += 1;
        }
        if same {
            assert(h@.subrange(i as int, i + n@.len()) =~= n@);
            return true;
        }
        assert(h@.subrange(i as int, i + n@.len()) != n@) by {
            let m = choose|m: int| 0 <= m < n@.len() && h@[i + m] != n@[m];
            assert(h@.subrange(i as int, i + n@.len())[m] != n@[m]);
        }
        if i == last {
            return false;
        }
        i += 1;
    }
    false
}

/// `needle`, lowercased, occurs in `hay`, lowercased.
pub open spec fn matches_folded(needle: Seq<char>, hay: Seq<char>) -> bool {
    is_infix(lower_of(needle), lower_of(hay))
}

/// Case-insensitive substring test on an already lowercased query.
pub fn contains_folded(hay: &str, lowered_query: &str) -> (r: bool)
    ensures
        r == is_infix(lowered_query@, lower_of(hay@)),
{
    let h = to_lower(hay);
    contains(h.as_str(), lowered_query)
}

/// The text cut to `max` characters, with `…` appended when it was longer.
pub open spec fn truncated(s: Seq<char>, max: int) -> Seq<char> {
    if s.len() > max {
        s.subrange(0, max).push('…')
    } else {
        s
    }
}

/// Cuts `s` to at most `max` characters, appending `…` if anything was cut.
pub fn truncate_chars(s: &str, max: usize) -> (r: String)
    ensures
        r@ == truncated(s@, max as int),
{
    let n = s.unicode_len();
    if n > max {
        let mut out = s.substring_char(0, max).to_owned();
        out.push('…');
        out
    } else {
        s.to_owned()
    }
}

/// The characters that `char::is_whitespace` accepts: Unicode White_Space.
pub open spec fn is_white(c: char) -> bool {
    let u = c as u32;
    ||| 0x09 <= u <= 0x0d
    ||| u == 0x20
    ||| u == 0x85
    ||| u == 0xa0
    ||| u == 0x1680
    ||| 0x2000 <= u <= 0x200a
    ||| u == 0x2028
    ||| u == 0x2029
    ||| u == 0x202f
    ||| u == 0x205f
    ||| u == 0x3000
}

/// Whether `c` is Unicode white space.
pub fn is_whitespace(c: char) -> (r: bool)
    ensures
        r == is_white(c),
{
    let u = c as u32;
    (0x09 <= u && u <= 0x0d) || u == 0x20 || u == 0x85 || u == 0xa0 || u == 0x1680 || (0x2000 <= u
        && u <= 0x200a) || u == 0x2028 || u == 0x2029 || u == 0x202f || u == 0x205f || u == 0x3000
}

/// The text without its leading white space.
pub open spec fn trim_start_of(s: Seq<char>) -> Seq<char>
    decreases s.len(),
{
    if s.len() > 0 && is_white(s[0]) {
        trim_start_of(s.drop_first())
    } else {
        s
    }
}

/// Drops the leading white space of `s`.
pub fn trim_start(s: &str) -> (r: &str)
    ensures
        r@ == trim_start_of(s@),
        r@.len() <= s@.len(),
        s@.subrange(s@.len() - r@.len(), s@.len() as int) == r@,
{
    let n = s.unicode_len();
    let mut i: usize = 0;
    assert(s@.subrange(0, n as int) =~= s@);
    while i < n && is_whitespace(s.get_char(i))
        invariant
            n == s@.len(),
            i <= n,
            trim_start_of(s@) == trim_start_of(s@.subrange(i as int, n as int)),
        decreases n - i,
    {
        assert(s@.subrange(i as int, n as int).drop_first() =~= s@.subrange(i + 1, n as int));
        i += 1;
    }
    assert(i < n ==> s@.subrange(i as int, n as int)[0] == s@[i as int]);
    s.substring_char(i, n)
}

/// A line of pretty-printed JSON cut into its indentation, its body and
/// whether a trailing comma followed the body.
pub open spec fn json_line_split(s: Seq<char>) -> (Seq<char>, Seq<char>, bool) {
    let t = trim_start_of(s);
    let indent = s.subrange(0, s.len() - t.len());
    if t.len() > 0 && t.last() == ',' {
        (indent, t.drop_last(), true)
    } else {
        (indent, t, false)
    }
}

/// Cuts a line of pretty-printed JSON into its indentation, its body and
/// whether a trailing comma followed the body.
pub fn json_line_parts(line: &str) -> (r: (&str, &str, bool))
    ensures
        (r.0@, r.1@, r.2) == json_line_split(line@),
{
    let t = trim_start(line);
    let n = line.unicode_len();
    let m = t.unicode_len();
    let indent = line.substring_char(0, n - m);
    if m > 0 && t.get_char(m - 1) == ',' {
        let body = t.substring_char(0, m - 1);
        assert(body@ =~= t@.drop_last());
        (indent, body, true)
    } else {
        (indent, t, false)
    }
}

/// Index of the quote that closes a string opened before `i`, skipping
/// backslash escapes.
pub open spec fn closing_quote(s: Seq<char>, i: int) -> Option<int>
    decreases s.len() - i,
{
    if i < 0 || i >= s.len() {
        None
    } else if s[i] == '\\' {
        if i + 2 >= s.len() {
            None
        } else {
            closing_quote(s, i + 2)
        }
    } else if s[i] == '"' {
        Some(i)
    } else {
        closing_quote(s, i + 1)
    }
}

/// The key and the value of a `"key": value` fragment of a JSON line.
pub open spec fn key_value(s: Seq<char>) -> Option<(Seq<char>, Seq<char>)> {
    if s.len() == 0 || s[0] != '"' {
        None
    } else {
        match closing_quote(s, 1) {
            Some(q) => {
                let after = trim_start_of(s.subrange(q + 1, s.len() as int));
                if after.len() > 0 && after[0] == ':' {
                    Some((s.subrange(1, q), trim_start_of(after.drop_first())))
                } else {
                    None
                }
            },
            None => None,
        }
    }
}

/// Splits a `"key": value` fragment into the key, without its quotes, and
/// the value.
pub fn split_key_value(s: &str) -> (r: Option<(&str, &str)>)
    ensures
        match r {
            Some((k, v)) => key_value(s@) == Some((k@, v@)),
            None => key_value(s@) is None,
        },
{
    let n = s.unicode_len();
    if n == 0 || s.get_char(0) != '"' {
        return None;
    }
    let mut i: usize = 1;
    while i < n
        invariant
            n == s@.len(),
            n > 0 && s@[0] == '"',
            1 <= i,
            closing_quote(s@, 1) == closing_quote(s@, i as int),
        decreases n - i,
    {
        let c = s.get_char(i);
        if c == '\\' {
            if n - i <= 2 {
                return None;
            }
            i += 2;
        } else if c == '"' {
            assert(closing_quote(s@, i as int) == Some(i as int));
            let after = trim_start(s.substring_char(i + 1, n));
            let m = after.unicode_len();
            if m > 0 && after.get_char(0) == ':' {
                let value = trim_start(after.substring_char(1, m));
                assert(after@.subrange(1, m as int) =~= after@.drop_first());
                let key = s.substring_char(1, i);

                return Some((key, value));
            }
            return None;
        } else {
            i += 1;
        }
    }
    None
}

} // verus!

verus! {

/// A copy of an optional text.
pub fn clone_opt(o: &Option<String>) -> (r: Option<String>)
    ensures
        r == *o,
{
    match o {
        Some(s) => Some(s.clone()),
        None => None,
    }
}

/// The text, or an empty one.
pub fn text_or_empty(o: &Option<String>) -> (r: String)
    ensures
        r@ == (match o {
            Some(s) => s@,
            None => Seq::<char>::empty(),
        }),
{
    match o {
        Some(s) => s.clone(),
        None => String::new(),
    }
}

/// The text, or nothing when it is empty.
pub fn non_empty(s: &String) -> (r: Option<String>)
    ensures
        r == (if s@.len() == 0 {
            None
        } else {
            Some(*s)
        }),
{
    if s.as_str().is_empty() {
        None
    } else {
        Some(s.clone())
    }
}

} // verus!

verus! {

/// The first place where `needle` occurs in `hay`.
pub open spec fn first_index(needle: Seq<char>, hay: Seq<char>) -> Option<int> {
    if is_infix(needle, hay) {
        Some(
            choose|i: int|
                0 <= i <= hay.len() - needle.len() && #[trigger] hay.subrange(i, i + needle.len())
                    == needle && forall|j: int|
                    0 <= j < i ==> #[trigger] hay.subrange(j, j + needle.len()) != needle,
        )
    } else {
        None
    }
}

/// Where `needle` first occurs in `hay`, counted in characters.
pub fn find(hay: &str, needle: &str) -> (r: Option<usize>)
    ensures
        match r {
            Some(i) => {
                &&& first_index(needle@, hay@) == Some(i as int)
                &&& i + needle@.len() <= hay@.len()
                &&& hay@.subrange(i as int, i + needle@.len()) == needle@
            },
            None => first_index(needle@, hay@) is None,
        },
{
    let h = chars_of(hay);
    let n = chars_of(needle);
    if n.len() > h.len() {
        return None;
    }
    let hl = h.len();
    let last = hl - n.len();
    let mut i: usize = 0;
    while i <= last
        invariant
            h@ == hay@,
            n@ == needle@,
            hl == h@.len(),
            last == h@.len() - n@.len(),
            i <= last,
            forall|j: int| 0 <= j < i ==> #[trigger] h@.subrange(j, j + n@.len()) != n@,
        decreases last - i,
    {
        let mut k: usize = 0;
        let mut same = true;
        while k < n.len()
            invariant
                h@ == hay@,
                n@ == needle@,
                i <= last,
                hl == h@.len(),
                last == h@.len() - n@.len(),
                k <= n@.len(),
                same <==> forall|m: int| 0 <= m < k ==> h@[i + m] == n@[m],
            decreases n@.len() - k,
        {
            if h[i + k] != n[k] {
                same = false;
            }
            k += 1;
        }
        if same {
            assert(h@.subrange(i as int, i + n@.len()) =~= n@);
            let ghost c = choose|c: int|
                0 <= c <= hay@.len() - needle@.len() && #[trigger] hay@.subrange(c, c + needle@.len())
                    == needle@ && forall|j: int|
                    0 <= j < c ==> #[trigger] hay@.subrange(j, j + needle@.len()) != needle@;
            assert(c == i) by {
                if c < i {
                    assert(h@.subrange(c, c + n@.len()) != n@);
                } else if c > i {
                    assert(hay@.subrange(i as int, i + needle@.len()) != needle@);
                }
            }
            return Some(i);
        }
        assert(h@.subrange(i as int, i + n@.len()) != n@) by {
            let m = choose|m: int| 0 <= m < n@.len() && h@[i + m] != n@[m];
            assert(h@.subrange(i as int, i + n@.len())[m] != n@[m]);
        }
        if i == last {
            return None;
        }
        i += 1;
    }
    None
}

} // verus!

verus! {

/// The text without its trailing white space.
pub open spec fn trim_end_of(s: Seq<char>) -> Seq<char>
    decreases s.len(),
{
    if s.len() > 0 && is_white(s.last()) {
        trim_end_of(s.drop_last())
    } else {
        s
    }
}

/// The text with each tab turned into a space.
pub open spec fn untabbed(s: Seq<char>) -> Seq<char> {
    s.map_values(|c: char| if c == '\t' { ' ' } else { c })
}

/// One line as it shows in a summary: trimmed, tabs turned into spaces.
pub open spec fn clean_line(l: Seq<char>) -> Seq<char> {
    untabbed(trim_end_of(trim_start_of(l)))
}

/// The text cut at each line break; a text without one is a single piece.
pub open spec fn segments(s: Seq<char>) -> Seq<Seq<char>>
    decreases s.len(),
{
    if s.len() == 0 {
        seq![Seq::empty()]
    } else if s.last() == '\n' {
        segments(s.drop_last()).push(Seq::empty())
    } else {
        let segs = segments(s.drop_last());
        segs.update(segs.len() - 1, segs.last().push(s.last()))
    }
}

/// The cleaned pieces that are not empty, joined by single spaces.
pub open spec fn joined(segs: Seq<Seq<char>>) -> Seq<char>
    decreases segs.len(),
{
    if segs.len() == 0 {
        Seq::empty()
    } else {
        let acc = joined(segs.drop_last());
        let p = clean_line(segs.last());
        if p.len() == 0 {
            acc
        } else if acc.len() == 0 {
            p
        } else {
            acc.push(' ') + p
        }
    }
}

/// A message on one line: each of its lines trimmed, tabs turned into
/// spaces, empty lines left out, the rest joined by single spaces.
pub open spec fn summary_of(s: Seq<char>) -> Seq<char> {
    joined(segments(s))
}

proof fn lemma_segments_len(s: Seq<char>)
    ensures
        segments(s).len() >= 1,
    decreases s.len(),
{
    if s.len() > 0 {
        lemma_segments_len(s.drop_last());
    }
}

proof fn lemma_segments_append(a: Seq<char>, b: Seq<char>)
    requires
        a.len() == 0 || a.last() == '\n',
        forall|i: int| 0 <= i < b.len() ==> #[trigger] b[i] != '\n',
    ensures
        segments(a + b) == segments(a).drop_last().push(b),
    decreases b.len(),
{
    lemma_segments_len(a);
    if b.len() == 0 {
        assert(a + b =~= a);
        assert(b =~= Seq::<char>::empty());
        if a.len() > 0 {
            assert(segments(a).last() == Seq::<char>::empty());
        } else {
            assert(segments(a) =~= seq![Seq::<char>::empty()]);
        }
        assert(segments(a) =~= segments(a).drop_last().push(b));
    } else {
        let b2 = b.drop_last();
        assert forall|i: int| 0 <= i < b2.len() implies #[trigger] b2[i] != '\n' by {
            assert(b2[i] == b[i]);
        }
        lemma_segments_append(a, b2);
        assert((a + b).drop_last() =~= a + b2);
        assert((a + b).last() == b.last());
        assert(b.last() == b[b.len() - 1]);
        assert(b2.push(b.last()) =~= b);
        assert(segments(a + b) =~= segments(a).drop_last().push(b));
    }
}

/// Appends the cleaned form of the line `cs[lo..hi]` to the summary so far.
fn push_clean_line(out: &mut String, cs: &Vec<char>, lo: usize, hi: usize)
    requires
        lo <= hi <= cs@.len(),
    ensures
        ({
            let p = clean_line(cs@.subrange(lo as int, hi as int));
            final(out)@ == if p.len() == 0 {
                old(out)@
            } else if old(out)@.len() == 0 {
                p
            } else {
                old(out)@.push(' ') + p
            }
        }),
{
    let ghost l = cs@.subrange(lo as int, hi as int);
    let mut a = lo;
    assert(l =~= cs@.subrange(a as int, hi as int));
    while a < hi && is_whitespace(cs[a])
        invariant
            lo <= a <= hi <= cs@.len(),
            l == cs@.subrange(lo as int, hi as int),
            trim_start_of(l) == trim_start_of(cs@.subrange(a as int, hi as int)),
        decreases hi - a,
    {
        assert(cs@.subrange(a as int, hi as int).drop_first() =~= cs@.subrange(a + 1, hi as int));
        a += 1;
    }
    let ghost t = cs@.subrange(a as int, hi as int);
    assert(a < hi ==> t[0] == cs@[a as int]);
    assert(trim_start_of(l) == t);
    let mut b = hi;
    assert(t =~= cs@.subrange(a as int, b as int));
    while b > a && is_whitespace(cs[b - 1])
        invariant
            lo <= a <= b <= hi <= cs@.len(),
            t == cs@.subrange(a as int, hi as int),
            trim_end_of(t) == trim_end_of(cs@.subrange(a as int, b as int)),
        decreases b - a,
    {
        assert(cs@.subrange(a as int, b as int).drop_last() =~= cs@.subrange(a as int, b - 1));
        b -= 1;
    }
    let ghost core = cs@.subrange(a as int, b as int);
    assert(b > a ==> core.last() == cs@[b - 1]);
    assert(trim_end_of(t) == core);
    if a == b {
        assert(untabbed(core) =~= Seq::<char>::empty());
        return ;
    }
    let ghost start = out@;
    if out.as_str().unicode_len() > 0 {
        out.push(' ');
    }
    let ghost base = out@;
    let mut k = a;
    while k < b
        invariant
            a <= k <= b <= cs@.len(),
            core == cs@.subrange(a as int, b as int),
            out@ == base + untabbed(cs@.subrange(a as int, k as int)),
        decreases b - k,
    {
        let c = cs[k];
        if c == '\t' {
            out.push(' ');
        } else {
            out.push(c);
        }
        assert(untabbed(cs@.subrange(a as int, k + 1)) =~= untabbed(cs@.subrange(a as int, k as int)).push(
            if c == '\t' {
                ' '
            } else {
                c
            },
        ));
        k += 1;
    }
    assert(untabbed(core).len() > 0);
    assert(out@ =~= base + untabbed(core));
}

/// A message on one line: each line trimmed, tabs turned into spaces,
/// empty lines left out, the rest joined by single spaces.
pub fn one_line_summary(s: &str) -> (r: String)
    ensures
        r@ == summary_of(s@),
{
    let cs = chars_of(s);
    let n = cs.len();
    let mut out = String::new();
    let mut j: usize = 0;
    let mut i: usize = 0;
    assert(cs@.subrange(0, 0) =~= Seq::<char>::empty());
    assert(segments(Seq::<char>::empty()).drop_last() =~= Seq::<Seq<char>>::empty());
    while i < n
        invariant
            cs@ == s@,
            n == cs@.len(),
            j <= i <= n,
            j > 0 ==> cs@[j - 1] == '\n',
            forall|m: int| j <= m < i ==> cs@[m] != '\n',
            out@ == joined(segments(cs@.subrange(0, j as int)).drop_last()),
        decreases n - i,
    {
        if cs[i] == '\n' {
            let ghost a = cs@.subrange(0, j as int);
            let ghost line = cs@.subrange(j as int, i as int);
            proof {
                assert forall|m: int| 0 <= m < line.len() implies #[trigger] line[m] != '\n' by {
                    assert(line[m] == cs@[j + m]);
                }
                if j > 0 {
                    assert(a.last() == cs@[j - 1]);
                }
                lemma_segments_append(a, line);
                let w = cs@.subrange(0, i + 1);
                assert(w.drop_last() =~= a + line);
                assert(w.last() == '\n');
                let done = segments(a).drop_last().push(line);
                assert(segments(w).drop_last() =~= done);
                assert(done.drop_last() =~= segments(a).drop_last());
            }
            push_clean_line(&mut out, &cs, j, i);
            j = i + 1;
        }
        i += 1;
    }
    let ghost a = cs@.subrange(0, j as int);
    let ghost line = cs@.subrange(j as int, n as int);
    proof {
        assert forall|m: int| 0 <= m < line.len() implies #[trigger] line[m] != '\n' by {
            assert(line[m] == cs@[j + m]);
        }
        if j > 0 {
            assert(a.last() == cs@[j - 1]);
        }
        lemma_segments_append(a, line);
        assert(a + line =~= cs@);
        let done = segments(a).drop_last().push(line);
        assert(done.drop_last() =~= segments(a).drop_last());
    }
    push_clean_line(&mut out, &cs, j, n);
    out
}

} // verus!
