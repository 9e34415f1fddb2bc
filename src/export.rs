use vstd::prelude::*;
use vstd::string::*;
use crate::model::LogEvent;
use crate::text::chars_of;

verus! {

/// The digit of value `d` in base 16, lower case.
pub open spec fn hex_char(d: int) -> char {
    if d == 0 {
        '0'
    } else if d == 1 {
        '1'
    } else if d == 2 {
        '2'
    } else if d == 3 {
        '3'
    } else if d == 4 {
        '4'
    } else if d == 5 {
        '5'
    } else if d == 6 {
        '6'
    } else if d == 7 {
        '7'
    } else if d == 8 {
        '8'
    } else if d == 9 {
        '9'
    } else if d == 10 {
        'a'
    } else if d == 11 {
        'b'
    } else if d == 12 {
        'c'
    } else if d == 13 {
        'd'
    } else if d == 14 {
        'e'
    } else {
        'f'
    }
}

/// The digit of value `d` in base 16.
pub fn hex_digit(d: u32) -> (c: char)
    requires
        d < 16,
    ensures
        c == hex_char(d as int),
{
    if d == 0 {
        '0'
    } else if d == 1 {
        '1'
    } else if d == 2 {
        '2'
    } else if d == 3 {
        '3'
    } else if d == 4 {
        '4'
    } else if d == 5 {
        '5'
    } else if d == 6 {
        '6'
    } else if d == 7 {
        '7'
    } else if d == 8 {
        '8'
    } else if d == 9 {
        '9'
    } else if d == 10 {
        'a'
    } else if d == 11 {
        'b'
    } else if d == 12 {
        'c'
    } else if d == 13 {
        'd'
    } else if d == 14 {
        'e'
    } else {
        'f'
    }
}

/// How one character of a message is written inside a JSON string.
pub open spec fn escape_char(c: char) -> Seq<char> {
    if c == '"' {
        seq!['\\', '"']
    } else if c == '\\' {
        seq!['\\', '\\']
    } else if c == '\n' {
        seq!['\\', 'n']
    } else if c == '\r' {
        seq!['\\', 'r']
    } else if c == '\t' {
        seq!['\\', 't']
    } else if c == '\x08' {
        seq!['\\', 'b']
    } else if c == '\x0c' {
        seq!['\\', 'f']
    } else if (c as u32) < 0x20 {
        seq!['\\', 'u', '0', '0', hex_char(((c as u32) / 16) as int), hex_char(((c as u32) % 16) as int)]
    } else {
        seq![c]
    }
}

/// A message written inside a JSON string.
pub open spec fn escaped(s: Seq<char>) -> Seq<char>
    decreases s.len(),
{
    if s.len() == 0 {
        Seq::empty()
    } else {
        escape_char(s[0]) + escaped(s.drop_first())
    }
}

/// The decimal digits of `n`.
pub open spec fn digits(n: nat) -> Seq<char>
    decreases n,
{
    if n < 10 {
        seq![hex_char(n as int)]
    } else {
        digits(n / 10).push(hex_char((n % 10) as int))
    }
}

/// `n` in decimal, with a leading `-` when negative.
pub open spec fn decimal(n: int) -> Seq<char> {
    if n < 0 {
        seq!['-'] + digits((-n) as nat)
    } else {
        digits(n as nat)
    }
}

/// `{"timestamp":`
pub open spec fn timestamp_key() -> Seq<char> {
    seq!['{', '"', 't', 'i', 'm', 'e', 's', 't', 'a', 'm', 'p', '"', ':']
}

/// `,"message":"`
pub open spec fn message_key() -> Seq<char> {
    seq![',', '"', 'm', 'e', 's', 's', 'a', 'g', 'e', '"', ':', '"']
}

/// `"}`
pub open spec fn record_end() -> Seq<char> {
    seq!['"', '}']
}

/// One event as a JSON object on one line, without the line break.
pub open spec fn record(e: (i64, Seq<char>)) -> Seq<char> {
    timestamp_key() + decimal(e.0 as int) + message_key() + escaped(e.1) + record_end()
}

/// The events, one JSON object per line, each line ended by a line break.
pub open spec fn export_text(evs: Seq<(i64, Seq<char>)>) -> Seq<char>
    decreases evs.len(),
{
    if evs.len() == 0 {
        Seq::empty()
    } else {
        export_text(evs.drop_last()) + record(evs.last()) + seq!['\n']
    }
}

/// The events as their views.
pub open spec fn views(evs: Seq<LogEvent>) -> Seq<(i64, Seq<char>)> {
    evs.map_values(|e: LogEvent| e@)
}

/// Escaping a text one character longer writes that character's escape last.
pub proof fn lemma_escaped_push(s: Seq<char>, c: char)
    ensures
        escaped(s.push(c)) == escaped(s) + escape_char(c),
    decreases s.len(),
{
    if s.len() == 0 {
        assert(s.push(c).drop_first() =~= Seq::<char>::empty());
        assert(escaped(s.push(c).drop_first()) == Seq::<char>::empty());
        assert(s.push(c)[0] == c);
        assert(escaped(s) == Seq::<char>::empty());
        assert(escaped(s.push(c)) =~= escaped(s) + escape_char(c));
    } else {
        assert(s.push(c).drop_first() =~= s.drop_first().push(c));
        lemma_escaped_push(s.drop_first(), c);
        assert(escaped(s.push(c)) =~= escaped(s) + escape_char(c));
    }
}

/// Appends the escape of `c`.
fn push_escaped_char(out: &mut String, c: char)
    ensures
        final(out)@ == old(out)@ + escape_char(c),
{
    let u = c as u32;
    if c == '"' {
        out.push('\\');
        out.push('"');
    } else if c == '\\' {
        out.push('\\');
        out.push('\\');
    } else if c == '\n' {
        out.push('\\');
        out.push('n');
    } else if c == '\r' {
        out.push('\\');
        out.push('r');
    } else if c == '\t' {
        out.push('\\');
        out.push('t');
    } else if c == '\x08' {
        out.push('\\');
        out.push('b');
    } else if c == '\x0c' {
        out.push('\\');
        out.push('f');
    } else if u < 0x20 {
        out.push('\\');
        out.push('u');
        out.push('0');
        out.push('0');
        out.push(hex_digit(u / 16));
        out.push(hex_digit(u % 16));
    } else {
        out.push(c);
    }
    assert(final(out)@ =~= old(out)@ + escape_char(c));
}

/// Appends `s` written inside a JSON string.
pub fn push_escaped(out: &mut String, s: &str)
    ensures
        final(out)@ == old(out)@ + escaped(s@),
{
    let n = s.unicode_len();
    let mut i: usize = 0;
    while i < n
        invariant
            n == s@.len(),
            i <= n,
            out@ == old(out)@ + escaped(s@.subrange(0, i as int)),
        decreases n - i,
    {
        let c = s.get_char(i);
        push_escaped_char(out, c);
        proof {
            lemma_escaped_push(s@.subrange(0, i as int), c);
            assert(s@.subrange(0, i as int).push(c) =~= s@.subrange(0, i + 1));
        }
        i += 1;
    }
    assert(s@.subrange(0, n as int) =~= s@);
}

/// Appends the decimal digits of `n`.
fn push_digits(out: &mut String, n: u64)
    ensures
        final(out)@ == old(out)@ + digits(n as nat),
    decreases n,
{
    if n >= 10 {
        push_digits(out, n / 10);
    }
    out.push(hex_digit((n % 10) as u32));
    assert(final(out)@ =~= old(out)@ + digits(n as nat));
}

/// Appends `n` in decimal.
pub fn push_decimal(out: &mut String, n: i64)
    ensures
        final(out)@ == old(out)@ + decimal(n as int),
{
    if n < 0 {
        out.push('-');
        let m = (0i128 - n as i128) as u64;
        push_digits(out, m);
    } else {
        push_digits(out, n as u64);
    }
    assert(final(out)@ =~= old(out)@ + decimal(n as int));
}

/// Appends the line of one event, without the line break.
pub fn push_record(out: &mut String, e: &LogEvent)
    ensures
        final(out)@ == old(out)@ + record(e@),
{
    let ghost start = out@;
    proof {
        reveal_strlit("{\"timestamp\":");
        reveal_strlit(",\"message\":\"");
        reveal_strlit("\"}");
    }
    out.append("{\"timestamp\":");
    push_decimal(out, e.timestamp);
    out.append(",\"message\":\"");
    push_escaped(out, e.message.as_str());
    out.append("\"}");
    assert(out@ =~= start + record(e@));
}

/// The events, one JSON object per line, each line ended by a line break;
/// empty when there are none.
pub fn export_jsonl(events: &Vec<LogEvent>) -> (r: String)
    ensures
        r@ == export_text(views(events@)),
{
    let mut out = String::new();
    let mut i: usize = 0;
    while i < events.len()
        invariant
            i <= events@.len(),
            out@ == export_text(views(events@.subrange(0, i as int))),
        decreases events@.len() - i,
    {
        push_record(&mut out, &events[i]);
        out.push('\n');
        proof {
            let a = views(events@.subrange(0, i + 1));
            assert(a.drop_last() =~= views(events@.subrange(0, i as int)));
            assert(a.last() == events@[i as int]@);
        }
        i += 1;
    }
    assert(events@.subrange(0, events@.len() as int) =~= events@);
    out
}

} // verus!

verus! {

/// A decimal digit.
pub open spec fn is_digit(c: char) -> bool {
    '0' <= c <= '9'
}

/// The value of a decimal digit.
pub open spec fn digit_value(c: char) -> int {
    c as u32 - '0' as u32
}

/// The value of a run of decimal digits.
pub open spec fn digits_value(d: Seq<char>) -> int
    decreases d.len(),
{
    if d.len() == 0 {
        0
    } else {
        digits_value(d.drop_last()) * 10 + digit_value(d.last())
    }
}

/// The length of the run of decimal digits that starts the text.
pub open spec fn digit_run(s: Seq<char>) -> nat
    decreases s.len(),
{
    if s.len() > 0 && is_digit(s[0]) {
        1 + digit_run(s.drop_first())
    } else {
        0
    }
}

/// The integer that starts the text, with how many characters it takes.
pub open spec fn parse_int(s: Seq<char>) -> Option<(int, int)> {
    if s.len() > 0 && s[0] == '-' {
        let k = digit_run(s.drop_first());
        if k == 0 {
            None
        } else {
            Some((-digits_value(s.subrange(1, k + 1 as int)), k + 1 as int))
        }
    } else {
        let k = digit_run(s);
        if k == 0 {
            None
        } else {
            Some((digits_value(s.subrange(0, k as int)), k as int))
        }
    }
}

/// The value of a hexadecimal digit, lower or upper case.
pub open spec fn hex_value(c: char) -> Option<int> {
    if '0' <= c <= '9' {
        Some(c as u32 - '0' as u32)
    } else if 'a' <= c <= 'f' {
        Some(c as u32 - 'a' as u32 + 10)
    } else if 'A' <= c <= 'F' {
        Some(c as u32 - 'A' as u32 + 10)
    } else {
        None
    }
}

/// The character an escape at the start of `s` stands for, with the
/// escape's length. `\u` escapes are read for the control characters.
pub open spec fn escape_value(s: Seq<char>) -> Option<(char, int)> {
    if s.len() < 2 || s[0] != '\\' {
        None
    } else {
        let c = s[1];
        if c == '"' {
            Some(('"', 2))
        } else if c == '\\' {
            Some(('\\', 2))
        } else if c == '/' {
            Some(('/', 2))
        } else if c == 'n' {
            Some(('\n', 2))
        } else if c == 'r' {
            Some(('\r', 2))
        } else if c == 't' {
            Some(('\t', 2))
        } else if c == 'b' {
            Some(('\x08', 2))
        } else if c == 'f' {
            Some(('\x0c', 2))
        } else if c == 'u' && s.len() >= 6 && s[2] == '0' && s[3] == '0' && hex_value(s[4]) is Some
            && hex_value(s[5]) is Some && hex_value(s[4])->0 < 2 {
            let code = hex_value(s[4])->0 * 16 + hex_value(s[5])->0;
            Some(((code as u8) as char, 6))
        } else {
            None
        }
    }
}

/// The text of a JSON string whose opening quote is just before `s`, with
/// the length of its escaped form up to the closing quote.
pub open spec fn unescape(s: Seq<char>) -> Option<(Seq<char>, int)>
    decreases s.len(),
{
    if s.len() == 0 {
        None
    } else if s[0] == '"' {
        Some((Seq::empty(), 0))
    } else if s[0] == '\\' {
        match escape_value(s) {
            Some((c, k)) => match unescape(s.subrange(k, s.len() as int)) {
                Some((t, m)) => Some((seq![c] + t, m + k)),
                None => None,
            },
            None => None,
        }
    } else {
        match unescape(s.drop_first()) {
            Some((t, m)) => Some((seq![s[0]] + t, m + 1)),
            None => None,
        }
    }
}

/// The event one line of an export holds.
#[verifier::opaque]
pub open spec fn parse_record(line: Seq<char>) -> Option<(i64, Seq<char>)> {
    let tk = timestamp_key();
    let mk = message_key();
    if line.len() < tk.len() || line.subrange(0, tk.len() as int) != tk {
        None
    } else {
        let rest = line.subrange(tk.len() as int, line.len() as int);
        match parse_int(rest) {
            Some((v, k)) => {
                let rest2 = rest.subrange(k, rest.len() as int);
                if !(i64::MIN <= v <= i64::MAX) || rest2.len() < mk.len() || rest2.subrange(
                    0,
                    mk.len() as int,
                ) != mk {
                    None
                } else {
                    let body = rest2.subrange(mk.len() as int, rest2.len() as int);
                    match unescape(body) {
                        Some((m, used)) => if body.subrange(used, body.len() as int)
                            == record_end() {
                            Some((v as i64, m))
                        } else {
                            None
                        },
                        None => None,
                    }
                }
            },
            None => None,
        }
    }
}

/// Where the last line of the text starts: just after its last line break.
pub open spec fn line_start(t: Seq<char>) -> int
    decreases t.len(),
{
    if t.len() == 0 {
        0
    } else if t.last() == '\n' {
        t.len() as int
    } else {
        line_start(t.drop_last())
    }
}

/// The events an export holds: each line, ended by a line break, one
/// event; `None` when a line is not one.
pub open spec fn parse_export(t: Seq<char>) -> Option<Seq<(i64, Seq<char>)>>
    decreases t.len(),
{
    if t.len() == 0 {
        Some(Seq::empty())
    } else if t.last() != '\n' {
        None
    } else {
        let body = t.drop_last();
        let s = if 0 <= line_start(body) <= body.len() {
            line_start(body)
        } else {
            0
        };
        match parse_export(body.subrange(0, s)) {
            Some(es) => match parse_record(body.subrange(s, body.len() as int)) {
                Some(e) => Some(es.push(e)),
                None => None,
            },
            None => None,
        }
    }
}

proof fn lemma_decimal_digit(k: int)
    requires
        0 <= k < 10,
    ensures
        is_digit(hex_char(k)),
        digit_value(hex_char(k)) == k,
{
}

proof fn lemma_digits(n: nat)
    ensures
        digits(n).len() >= 1,
        forall|i: int| 0 <= i < digits(n).len() ==> is_digit(#[trigger] digits(n)[i]),
        digits_value(digits(n)) == n,
    decreases n,
{
    if n < 10 {
        lemma_decimal_digit(n as int);
        assert(digits(n).drop_last() =~= Seq::<char>::empty());
        assert(digits_value(Seq::<char>::empty()) == 0);
        assert(digits(n).last() == hex_char(n as int));
    } else {
        lemma_decimal_digit((n % 10) as int);
        lemma_digits(n / 10);
        let d = digits(n / 10);
        assert(digits(n).drop_last() =~= d);
        assert(digits(n).last() == hex_char((n % 10) as int));
        assert(digits_value(digits(n)) == digits_value(d) * 10 + (n % 10) as int);
        assert(n == (n / 10) * 10 + n % 10) by (nonlinear_arith);
        assert forall|i: int| 0 <= i < digits(n).len() implies is_digit(#[trigger] digits(n)[i]) by {
            if i < d.len() {
                assert(digits(n)[i] == d[i]);
            }
        }
    }
}

proof fn lemma_digit_run(d: Seq<char>, x: Seq<char>)
    requires
        forall|i: int| 0 <= i < d.len() ==> is_digit(#[trigger] d[i]),
        x.len() == 0 || !is_digit(x[0]),
    ensures
        digit_run(d + x) == d.len(),
    decreases d.len(),
{
    if d.len() == 0 {
        assert(d + x =~= x);
    } else {
        assert((d + x).drop_first() =~= d.drop_first() + x);
        lemma_digit_run(d.drop_first(), x);
    }
}

proof fn lemma_parse_int(n: int, x: Seq<char>)
    requires
        x.len() > 0 && !is_digit(x[0]) && x[0] != '-',
    ensures
        parse_int(decimal(n) + x) == Some((n, decimal(n).len() as int)),
{
    if n < 0 {
        let m = (-n) as nat;
        lemma_digits(m);
        let s = decimal(n) + x;
        assert(s.drop_first() =~= digits(m) + x);
        lemma_digit_run(digits(m), x);
        assert(s.subrange(1, digits(m).len() + 1 as int) =~= digits(m));
    } else {
        let m = n as nat;
        lemma_digits(m);
        lemma_digit_run(digits(m), x);
        assert((digits(m) + x).subrange(0, digits(m).len() as int) =~= digits(m));
    }
}

proof fn lemma_escape_value(c: char, rest: Seq<char>)
    requires
        escape_char(c).len() > 1,
    ensures
        escape_value(escape_char(c) + rest) == Some((c, escape_char(c).len() as int)),
        (escape_char(c) + rest)[0] == '\\',
{
    let e = escape_char(c);
    let s = e + rest;
    assert(s[0] == e[0]);
    assert(s[1] == e[1]);
    if (c as u32) < 0x20 && c != '\n' && c != '\r' && c != '\t' && c != '\x08' && c != '\x0c' {
        let u = c as u32;
        assert(s[2] == '0' && s[3] == '0');
        assert(s[4] == hex_char((u / 16) as int));
        assert(s[5] == hex_char((u % 16) as int));
        assert(hex_value(s[4]) == Some((u / 16) as int));
        assert(hex_value(s[5]) == Some((u % 16) as int));
        assert((u / 16) * 16 + u % 16 == u);
        let code = (u / 16) as int * 16 + (u % 16) as int;
        assert(((code as u8) as char) as u32 == u);
    }
}

proof fn lemma_unescape(m: Seq<char>, tail: Seq<char>)
    requires
        tail.len() > 0 && tail[0] == '"',
    ensures
        unescape(escaped(m) + tail) == Some((m, escaped(m).len() as int)),
    decreases m.len(),
{
    let s = escaped(m) + tail;
    if m.len() == 0 {
        assert(s =~= tail);
    } else {
        let c = m[0];
        let e = escape_char(c);
        let rest = escaped(m.drop_first()) + tail;
        assert(s =~= e + rest);
        lemma_unescape(m.drop_first(), tail);
        if e.len() > 1 {
            lemma_escape_value(c, rest);
            assert(s.subrange(e.len() as int, s.len() as int) =~= rest);
            assert(seq![c] + m.drop_first() =~= m);
        } else {
            assert(e == seq![c]);
            assert(s[0] == c);
            assert(s.drop_first() =~= rest);
            assert(seq![c] + m.drop_first() =~= m);
        }
    }
}

#[verifier::rlimit(50)]
proof fn lemma_record(e: (i64, Seq<char>))
    ensures
        parse_record(record(e)) == Some(e),
{
    reveal(parse_record);
    let tk = timestamp_key();
    let mk = message_key();
    let d = decimal(e.0 as int);
    let esc = escaped(e.1);
    let line = record(e);
    assert(line =~= tk + (d + (mk + (esc + record_end()))));
    assert(line.subrange(0, tk.len() as int) =~= tk);
    let rest = line.subrange(tk.len() as int, line.len() as int);
    assert(rest =~= d + (mk + (esc + record_end())));
    lemma_parse_int(e.0 as int, mk + (esc + record_end()));
    let rest2 = rest.subrange(d.len() as int, rest.len() as int);
    assert(rest2 =~= mk + (esc + record_end()));
    assert(rest2.subrange(0, mk.len() as int) =~= mk);
    let body = rest2.subrange(mk.len() as int, rest2.len() as int);
    assert(body =~= esc + record_end());
    lemma_unescape(e.1, record_end());
    assert(body.subrange(esc.len() as int, body.len() as int) =~= record_end());
}

proof fn lemma_escaped_no_break(m: Seq<char>)
    ensures
        forall|i: int| 0 <= i < escaped(m).len() ==> #[trigger] escaped(m)[i] != '\n',
    decreases m.len(),
{
    if m.len() > 0 {
        lemma_escaped_no_break(m.drop_first());
        let e = escape_char(m[0]);
        let r = escaped(m.drop_first());
        assert forall|i: int| 0 <= i < escaped(m).len() implies #[trigger] escaped(m)[i] != '\n' by {
            if i < e.len() {
                assert(escaped(m)[i] == e[i]);
            } else {
                assert(escaped(m)[i] == r[i - e.len()]);
            }
        }
    }
}

/// An event's line holds no raw line break: line breaks and quotes in the
/// message are written escaped.
pub proof fn lemma_no_break(e: (i64, Seq<char>))
    ensures
        forall|i: int| 0 <= i < record(e).len() ==> #[trigger] record(e)[i] != '\n',
{
    let n = e.0 as int;
    let d = decimal(n);
    if n < 0 {
        lemma_digits((-n) as nat);
    } else {
        lemma_digits(n as nat);
    }
    assert forall|i: int| 0 <= i < d.len() implies #[trigger] d[i] != '\n' by {
        if n < 0 {
            if i > 0 {
                assert(d[i] == digits((-n) as nat)[i - 1]);
            }
        }
    }
    lemma_escaped_no_break(e.1);
    let tk = timestamp_key();
    let mk = message_key();
    let esc = escaped(e.1);
    let line = record(e);
    assert forall|i: int| 0 <= i < line.len() implies #[trigger] line[i] != '\n' by {
        let a = tk.len() as int;
        let b = a + d.len();
        let c = b + mk.len();
        let f = c + esc.len();
        if i < a {
            assert(line[i] == tk[i]);
        } else if i < b {
            assert(line[i] == d[i - a]);
        } else if i < c {
            assert(line[i] == mk[i - b]);
        } else if i < f {
            assert(line[i] == esc[i - c]);
        } else {
            assert(line[i] == record_end()[i - f]);
        }
    }
}

proof fn lemma_line_start(a: Seq<char>, r: Seq<char>)
    requires
        a.len() == 0 || a.last() == '\n',
        forall|i: int| 0 <= i < r.len() ==> #[trigger] r[i] != '\n',
    ensures
        line_start(a + r) == a.len(),
    decreases r.len(),
{
    if r.len() == 0 {
        assert(a + r =~= a);
        if a.len() > 0 {
            assert((a + r).last() == '\n');
        }
    } else {
        assert((a + r).drop_last() =~= a + r.drop_last());
        assert((a + r).last() == r.last());
        assert(r.last() == r[r.len() - 1]);
        lemma_line_start(a, r.drop_last());
    }
}

/// Reading an export back gives the events it was written from, message
/// text and timestamps alike, whatever characters the messages hold.
pub proof fn lemma_export_round_trip(evs: Seq<(i64, Seq<char>)>)
    ensures
        parse_export(export_text(evs)) == Some(evs),
    decreases evs.len(),
{
    if evs.len() > 0 {
        let prev = evs.drop_last();
        let a = export_text(prev);
        let r = record(evs.last());
        let t = export_text(evs);
        lemma_export_round_trip(prev);
        lemma_record(evs.last());
        lemma_no_break(evs.last());
        assert(t.drop_last() =~= a + r);
        if prev.len() > 0 {
            assert(a.last() == '\n');
        }
        lemma_line_start(a, r);
        let body = t.drop_last();
        assert(t.last() == '\n');
        assert(line_start(body) == a.len());
        assert(body.subrange(0, a.len() as int) =~= a);
        assert(body.subrange(a.len() as int, body.len() as int) =~= r);
        assert(prev.push(evs.last()) =~= evs);
    }
}

} // verus!

verus! {

/// Whether `c` is a decimal digit.
fn is_digit_char(c: char) -> (r: bool)
    ensures
        r == is_digit(c),
{
    '0' <= c && c <= '9'
}

/// The value of a hexadecimal digit.
fn hex_digit_value(c: char) -> (r: Option<u32>)
    ensures
        match r {
            Some(v) => hex_value(c) == Some(v as int) && v < 16,
            None => hex_value(c) is None,
        },
{
    if '0' <= c && c <= '9' {
        Some(c as u32 - '0' as u32)
    } else if 'a' <= c && c <= 'f' {
        Some(c as u32 - 'a' as u32 + 10)
    } else if 'A' <= c && c <= 'F' {
        Some(c as u32 - 'A' as u32 + 10)
    } else {
        None
    }
}

proof fn lemma_digits_value_nonneg(d: Seq<char>)
    requires
        forall|i: int| 0 <= i < d.len() ==> is_digit(#[trigger] d[i]),
    ensures
        digits_value(d) >= 0,
    decreases d.len(),
{
    if d.len() > 0 {
        lemma_digits_value_nonneg(d.drop_last());
    }
}

proof fn lemma_digits_value_grows(d: Seq<char>, j: int)
    requires
        0 <= j <= d.len(),
        forall|i: int| 0 <= i < d.len() ==> is_digit(#[trigger] d[i]),
    ensures
        digits_value(d) >= digits_value(d.subrange(0, j)),
    decreases d.len() - j,
{
    if j < d.len() {
        let e = d.subrange(0, j + 1);
        assert(e.drop_last() =~= d.subrange(0, j));
        lemma_digits_value_nonneg(d.subrange(0, j));
        lemma_digits_value_grows(d, j + 1);
        assert(digits_value(e) == digits_value(d.subrange(0, j)) * 10 + digit_value(e.last()));
    } else {
        assert(d.subrange(0, j) =~= d);
    }
}

proof fn lemma_digit_run_bounds(s: Seq<char>)
    ensures
        digit_run(s) <= s.len(),
        forall|i: int| 0 <= i < digit_run(s) ==> is_digit(#[trigger] s[i]),
        digit_run(s) < s.len() ==> !is_digit(s[digit_run(s) as int]),
    decreases s.len(),
{
    if s.len() > 0 && is_digit(s[0]) {
        lemma_digit_run_bounds(s.drop_first());
        assert forall|i: int| 0 <= i < digit_run(s) implies is_digit(#[trigger] s[i]) by {
            if i > 0 {
                assert(s[i] == s.drop_first()[i - 1]);
            }
        }
    }
}

/// Reads the decimal digits of `cs[start..hi]`; `None` when their value is
/// beyond 2^63.
fn read_digits(cs: &Vec<char>, start: usize, hi: usize) -> (r: Option<(u64, usize)>)
    requires
        start <= hi <= cs@.len(),
    ensures
        ({
            let s = cs@.subrange(start as int, hi as int);
            let k = digit_run(s);
            &&& k <= s.len()
            &&& match r {
                Some((v, n)) => n == k && v == digits_value(s.subrange(0, k as int)) && v
                    <= 0x8000_0000_0000_0000u64,
                None => digits_value(s.subrange(0, k as int)) > 0x8000_0000_0000_0000u64,
            }
        }),
{
    let ghost s = cs@.subrange(start as int, hi as int);
    proof {
        lemma_digit_run_bounds(s);
    }
    let mut i = start;
    let mut acc: u64 = 0;
    assert(s.subrange(0, 0) =~= Seq::<char>::empty());
    while i < hi && is_digit_char(cs[i])
        invariant
            start <= i <= hi <= cs@.len(),
            s == cs@.subrange(start as int, hi as int),
            forall|j: int| 0 <= j < i - start ==> is_digit(#[trigger] s[j]),
            acc == digits_value(s.subrange(0, i - start)),
            acc <= 0x8000_0000_0000_0000u64,
        decreases hi - i,
    {
        let d = (cs[i] as u32 - '0' as u32) as u64;
        let ghost e = s.subrange(0, i + 1 - start);
        assert(e.drop_last() =~= s.subrange(0, i - start));
        assert(e.last() == cs@[i as int]);
        if acc > 0x0CCC_CCCC_CCCC_CCCCu64 || acc * 10 + d > 0x8000_0000_0000_0000u64 {
            proof {
                lemma_digit_run_bounds(s);
                lemma_digits_value_nonneg(s.subrange(0, i - start));
                assert(digits_value(e) == acc * 10 + d);
                lemma_digit_run_prefix(s, (i + 1 - start) as int);
                let k = digit_run(s);
                let run = s.subrange(0, k as int);
                assert forall|j: int| 0 <= j < run.len() implies is_digit(#[trigger] run[j]) by {
                    assert(run[j] == s[j]);
                }
                lemma_digits_value_grows(run, (i + 1 - start) as int);
                assert(run.subrange(0, i + 1 - start) =~= e);
            }
            return None;
        }
        acc = acc * 10 + d;
        i += 1;
    }
    proof {
        let n = (i - start) as int;
        if n < s.len() {
            assert(!is_digit(s[n]));
        }
        lemma_digit_run_exact(s, n);
    }
    Some((acc, i - start))
}

proof fn lemma_digit_run_prefix(s: Seq<char>, n: int)
    requires
        0 <= n <= s.len(),
        forall|j: int| 0 <= j < n ==> is_digit(#[trigger] s[j]),
    ensures
        digit_run(s) >= n,
    decreases n,
{
    if n > 0 {
        assert forall|j: int| 0 <= j < n - 1 implies is_digit(#[trigger] s.drop_first()[j]) by {
            assert(s.drop_first()[j] == s[j + 1]);
        }
        lemma_digit_run_prefix(s.drop_first(), n - 1);
    }
}

proof fn lemma_digit_run_exact(s: Seq<char>, n: int)
    requires
        0 <= n <= s.len(),
        forall|j: int| 0 <= j < n ==> is_digit(#[trigger] s[j]),
        n < s.len() ==> !is_digit(s[n]),
    ensures
        digit_run(s) == n,
    decreases n,
{
    if n > 0 {
        assert forall|j: int| 0 <= j < n - 1 implies is_digit(#[trigger] s.drop_first()[j]) by {
            assert(s.drop_first()[j] == s[j + 1]);
        }
        if n - 1 < s.drop_first().len() {
            assert(s.drop_first()[n - 1] == s[n]);
        }
        lemma_digit_run_exact(s.drop_first(), n - 1);
    }
}

/// Reads the integer at the start of `cs[lo..hi]`; `None` where there is
/// none or it does not fit in an `i64`.
fn read_int(cs: &Vec<char>, lo: usize, hi: usize) -> (r: Option<(i64, usize)>)
    requires
        lo <= hi <= cs@.len(),
    ensures
        ({
            let s = cs@.subrange(lo as int, hi as int);
            match r {
                Some((v, k)) => parse_int(s) == Some((v as int, k as int)) && k <= hi - lo,
                None => parse_int(s) matches Some((v, k)) ==> !(i64::MIN <= v <= i64::MAX),
            }
        }),
{
    let ghost s = cs@.subrange(lo as int, hi as int);
    if lo < hi && cs[lo] == '-' {
        assert(s.drop_first() =~= cs@.subrange(lo + 1, hi as int));
        proof {
            lemma_digit_run_bounds(cs@.subrange(lo + 1, hi as int));
        }
        match read_digits(cs, lo + 1, hi) {
            Some((v, k)) => {
                if k == 0 {
                    return None;
                }
                let ghost t = cs@.subrange(lo + 1, hi as int);
                assert(s.subrange(1, k + 1 as int) =~= t.subrange(0, k as int));
                if v == 0x8000_0000_0000_0000u64 {
                    Some((i64::MIN, k + 1))
                } else {
                    Some((0i64 - (v as i64), k + 1))
                }
            },
            None => {
                let ghost t = cs@.subrange(lo + 1, hi as int);
                assert(s.subrange(1, digit_run(t) + 1 as int) =~= t.subrange(0, digit_run(t) as int));
                None
            },
        }
    } else {
        match read_digits(cs, lo, hi) {
            Some((v, k)) => {
                if k == 0 || v > 0x7FFF_FFFF_FFFF_FFFFu64 {
                    return None;
                }
                Some((v as i64, k))
            },
            None => None,
        }
    }
}

/// The character an escape at `cs[i..hi]` stands for, with its length.
fn read_escape(cs: &Vec<char>, i: usize, hi: usize) -> (r: Option<(char, usize)>)
    requires
        i <= hi <= cs@.len(),
    ensures
        match r {
            Some((c, k)) => escape_value(cs@.subrange(i as int, hi as int)) == Some((c, k as int)),
            None => escape_value(cs@.subrange(i as int, hi as int)) is None,
        },
{
    let ghost s = cs@.subrange(i as int, hi as int);
    if hi - i < 2 || cs[i] != '\\' {
        return None;
    }
    assert(s[0] == cs@[i as int] && s[1] == cs@[i + 1]);
    let c = cs[i + 1];
    if c == '"' {
        Some(('"', 2))
    } else if c == '\\' {
        Some(('\\', 2))
    } else if c == '/' {
        Some(('/', 2))
    } else if c == 'n' {
        Some(('\n', 2))
    } else if c == 'r' {
        Some(('\r', 2))
    } else if c == 't' {
        Some(('\t', 2))
    } else if c == 'b' {
        Some(('\x08', 2))
    } else if c == 'f' {
        Some(('\x0c', 2))
    } else if c == 'u' && hi - i >= 6 && cs[i + 2] == '0' && cs[i + 3] == '0' {
        assert(s[2] == cs@[i + 2] && s[3] == cs@[i + 3] && s[4] == cs@[i + 4] && s[5] == cs@[i + 5]);
        match (hex_digit_value(cs[i + 4]), hex_digit_value(cs[i + 5])) {
            (Some(a), Some(b)) => {
                if a < 2 {
                    let code = (a * 16 + b) as u8;
                    Some((code as char, 6))
                } else {
                    None
                }
            },
            _ => None,
        }
    } else {
        if c == 'u' && hi - i >= 6 {
            assert(s[2] == cs@[i + 2] && s[3] == cs@[i + 3]);
        }
        None
    }
}

/// Reads a JSON string body at `cs[lo..hi]` up to its closing quote.
fn read_escaped(cs: &Vec<char>, lo: usize, hi: usize) -> (r: Option<(String, usize)>)
    requires
        lo <= hi <= cs@.len(),
    ensures
        match r {
            Some((t, m)) => unescape(cs@.subrange(lo as int, hi as int)) == Some((t@, m as int)) && lo
                + m < hi,
            None => unescape(cs@.subrange(lo as int, hi as int)) is None,
        },
{
    let mut out = String::new();
    let mut i = lo;
    while i < hi
        invariant
            lo <= i <= hi <= cs@.len(),
            unescape(cs@.subrange(lo as int, hi as int)) == match unescape(
                cs@.subrange(i as int, hi as int),
            ) {
                Some((t, m)) => Some((out@ + t, m + (i - lo))),
                None => None::<(Seq<char>, int)>,
            },
        decreases hi - i,
    {
        let ghost s = cs@.subrange(i as int, hi as int);
        let ghost before = out@;
        let c = cs[i];
        assert(s[0] == c);
        if c == '"' {
            assert(out@ + Seq::<char>::empty() =~= out@);
            return Some((out, i - lo));
        } else if c == '\\' {
            match read_escape(cs, i, hi) {
                Some((ch, k)) => {
                    assert(s.subrange(k as int, s.len() as int) =~= cs@.subrange(i + k, hi as int));
                    out.push(ch);
                    proof {
                        match unescape(cs@.subrange(i + k, hi as int)) {
                            Some((t, m)) => {
                                assert(before + (seq![ch] + t) =~= out@ + t);
                            },
                            None => {},
                        }
                    }
                    i = i + k;
                },
                None => {
                    return None;
                },
            }
        } else {
            assert(s.drop_first() =~= cs@.subrange(i + 1, hi as int));
            out.push(c);
            proof {
                match unescape(cs@.subrange(i + 1, hi as int)) {
                    Some((t, m)) => {
                        assert(before + (seq![c] + t) =~= out@ + t);
                    },
                    None => {},
                }
            }
            i = i + 1;
        }
    }
    assert(cs@.subrange(i as int, hi as int).len() == 0);
    None
}

/// Whether `cs[lo..hi]` starts with `p`.
fn starts_with_at(cs: &Vec<char>, lo: usize, hi: usize, p: &Vec<char>) -> (r: bool)
    requires
        lo <= hi <= cs@.len(),
    ensures
        r == (p@.len() <= hi - lo && cs@.subrange(lo as int, hi as int).subrange(0, p@.len() as int)
            == p@),
{
    if p.len() > hi - lo {
        return false;
    }
    let ghost s = cs@.subrange(lo as int, hi as int);
    let mut j: usize = 0;
    while j < p.len()
        invariant
            lo <= hi <= cs@.len(),
            s == cs@.subrange(lo as int, hi as int),
            p@.len() <= hi - lo,
            j <= p@.len(),
            forall|m: int| 0 <= m < j ==> s[m] == p@[m],
        decreases p@.len() - j,
    {
        if cs[lo + j] != p[j] {
            assert(s.subrange(0, p@.len() as int)[j as int] != p@[j as int]);
            return false;
        }
        j += 1;
    }
    assert(s.subrange(0, p@.len() as int) =~= p@);
    true
}

/// Reads the event on the line `cs[lo..hi]`.
#[verifier::rlimit(50)]
fn read_record(cs: &Vec<char>, lo: usize, hi: usize, tk: &Vec<char>, mk: &Vec<char>) -> (r: Option<LogEvent>)
    requires
        lo <= hi <= cs@.len(),
        tk@ == timestamp_key(),
        mk@ == message_key(),
    ensures
        match r {
            Some(e) => parse_record(cs@.subrange(lo as int, hi as int)) == Some(e@),
            None => parse_record(cs@.subrange(lo as int, hi as int)) is None,
        },
{
    reveal(parse_record);
    let ghost line = cs@.subrange(lo as int, hi as int);
    if !starts_with_at(cs, lo, hi, tk) {
        return None;
    }
    let a = lo + tk.len();
    let ghost rest = line.subrange(tk@.len() as int, line.len() as int);
    assert(rest =~= cs@.subrange(a as int, hi as int));
    let (v, k) = match read_int(cs, a, hi) {
        Some(x) => x,
        None => {
            assert(parse_record(line) is None);
            return None;
        },
    };
    let b = a + k;
    let ghost rest2 = rest.subrange(k as int, rest.len() as int);
    assert(rest2 =~= cs@.subrange(b as int, hi as int));
    if !starts_with_at(cs, b, hi, mk) {
        return None;
    }
    let c = b + mk.len();
    let ghost body = rest2.subrange(mk@.len() as int, rest2.len() as int);
    assert(body =~= cs@.subrange(c as int, hi as int));
    let (m, used) = match read_escaped(cs, c, hi) {
        Some(x) => x,
        None => {
            return None;
        },
    };
    let d = c + used;
    let ghost tail = body.subrange(used as int, body.len() as int);
    assert(tail =~= cs@.subrange(d as int, hi as int));
    if hi - d == 2 && cs[d] == '"' && cs[d + 1] == '}' {
        assert(tail =~= record_end());
        Some(LogEvent { timestamp: v, message: m })
    } else {
        assert(tail != record_end()) by {
            if tail == record_end() {
                assert(tail[0] == cs@[d as int]);
                assert(tail[1] == cs@[d + 1]);
            }
        }
        None
    }
}

proof fn lemma_line_start_bounds(t: Seq<char>)
    ensures
        0 <= line_start(t) <= t.len(),
        forall|j: int| line_start(t) <= j < t.len() ==> #[trigger] t[j] != '\n',
        line_start(t) > 0 ==> t[line_start(t) - 1] == '\n',
    decreases t.len(),
{
    if t.len() > 0 && t.last() != '\n' {
        lemma_line_start_bounds(t.drop_last());
        assert forall|j: int| line_start(t) <= j < t.len() implies #[trigger] t[j] != '\n' by {
            if j < t.len() - 1 {
                assert(t[j] == t.drop_last()[j]);
            }
        }
        if line_start(t) > 0 {
            assert(t[line_start(t) - 1] == t.drop_last()[line_start(t) - 1]);
        }
    }
}

proof fn lemma_export_prefix(t: Seq<char>, m: int)
    requires
        0 < m <= t.len(),
        t[m - 1] == '\n',
        parse_export(t) is Some,
    ensures
        parse_export(t.subrange(0, m)) is Some,
    decreases t.len(),
{
    if m == t.len() {
        assert(t.subrange(0, m) =~= t);
    } else {
        let body = t.drop_last();
        lemma_line_start_bounds(body);
        let s = line_start(body);
        assert(body[m - 1] == '\n');
        assert(s >= m);
        let u = body.subrange(0, s);
        assert(u[m - 1] == '\n');
        lemma_export_prefix(u, m);
        assert(u.subrange(0, m) =~= t.subrange(0, m));
    }
}

/// Reads an export back: one event per line, each line ended by a line
/// break; `None` when a line does not hold one.
pub fn parse_jsonl(text: &str) -> (r: Option<Vec<LogEvent>>)
    ensures
        match r {
            Some(v) => parse_export(text@) == Some(views(v@)),
            None => parse_export(text@) is None,
        },
{
    let cs = chars_of(text);
    proof {
        reveal_strlit("{\"timestamp\":");
        reveal_strlit(",\"message\":\"");
    }
    let tk = chars_of("{\"timestamp\":");
    let mk = chars_of(",\"message\":\"");
    assert(tk@ =~= timestamp_key());
    assert(mk@ =~= message_key());
    let n = cs.len();
    let mut out: Vec<LogEvent> = Vec::new();
    let mut p: usize = 0;
    assert(cs@.subrange(0, 0) =~= Seq::<char>::empty());
    assert(views(out@) =~= Seq::<(i64, Seq<char>)>::empty());
    while p < n
        invariant
            cs@ == text@,
            n == cs@.len(),
            tk@ == timestamp_key(),
            mk@ == message_key(),
            p <= n,
            p > 0 ==> cs@[p - 1] == '\n',
            parse_export(cs@.subrange(0, p as int)) == Some(views(out@)),
        decreases n - p,
    {
        let mut q = p;
        while q < n && cs[q] != '\n'
            invariant
                p <= q <= n,
                n == cs@.len(),
                forall|j: int| p <= j < q ==> cs@[j] != '\n',
            decreases n - q,
        {
            q += 1;
        }
        if q == n {
            assert(cs@.last() == cs@[n - 1]);
            assert(parse_export(cs@) is None);
            return None;
        }
        let ghost a = cs@.subrange(0, p as int);
        let ghost line = cs@.subrange(p as int, q as int);
        let ghost t = cs@.subrange(0, q + 1);
        proof {
            assert forall|j: int| 0 <= j < line.len() implies #[trigger] line[j] != '\n' by {
                assert(line[j] == cs@[p + j]);
            }
            if p > 0 {
                assert(a.last() == cs@[p - 1]);
            }
            lemma_line_start(a, line);
            assert(t.drop_last() =~= a + line);
            assert(t.last() == '\n');
            assert((a + line).subrange(0, a.len() as int) =~= a);
            assert((a + line).subrange(a.len() as int, (a + line).len() as int) =~= line);
        }
        match read_record(&cs, p, q, &tk, &mk) {
            Some(e) => {
                let ghost prev = out@;
                out.push(e);
                assert(views(out@) =~= views(prev).push(e@));
            },
            None => {
                proof {
                    assert(parse_export(t) is None);
                    if parse_export(cs@) is Some {
                        lemma_export_prefix(cs@, q + 1);
                        assert(cs@.subrange(0, q + 1) =~= t);
                    }
                }
                return None;
            },
        }
        p = q + 1;
    }
    assert(cs@.subrange(0, n as int) =~= cs@);
    Some(out)
}

} // verus!

verus! {

/// The number of line breaks in a text.
pub open spec fn line_breaks(s: Seq<char>) -> nat
    decreases s.len(),
{
    if s.len() == 0 {
        0
    } else {
        line_breaks(s.drop_last()) + if s.last() == '\n' {
            1nat
        } else {
            0nat
        }
    }
}

proof fn lemma_line_breaks_concat(a: Seq<char>, b: Seq<char>)
    ensures
        line_breaks(a + b) == line_breaks(a) + line_breaks(b),
    decreases b.len(),
{
    if b.len() == 0 {
        assert(a + b =~= a);
    } else {
        assert((a + b).drop_last() =~= a + b.drop_last());
        assert((a + b).last() == b.last());
        lemma_line_breaks_concat(a, b.drop_last());
    }
}

proof fn lemma_no_line_breaks(s: Seq<char>)
    requires
        forall|i: int| 0 <= i < s.len() ==> #[trigger] s[i] != '\n',
    ensures
        line_breaks(s) == 0,
    decreases s.len(),
{
    if s.len() > 0 {
        assert(s.last() == s[s.len() - 1]);
        assert forall|i: int| 0 <= i < s.drop_last().len() implies #[trigger] s.drop_last()[i] != '\n' by {
            assert(s.drop_last()[i] == s[i]);
        }
        lemma_no_line_breaks(s.drop_last());
    }
}

/// An export of N events holds exactly N line breaks, one ending each
/// event's line; none when there are no events.
pub proof fn lemma_export_line_count(evs: Seq<(i64, Seq<char>)>)
    ensures
        line_breaks(export_text(evs)) == evs.len(),
    decreases evs.len(),
{
    if evs.len() > 0 {
        let prev = evs.drop_last();
        lemma_export_line_count(prev);
        lemma_no_break(evs.last());
        lemma_no_line_breaks(record(evs.last()));
        lemma_line_breaks_concat(export_text(prev), record(evs.last()));
        lemma_line_breaks_concat(export_text(prev) + record(evs.last()), seq!['\n']);
        assert(seq!['\n'].drop_last() =~= Seq::<char>::empty());
        assert(line_breaks(Seq::<char>::empty()) == 0);
        assert(line_breaks(seq!['\n']) == 1);
        assert(export_text(evs) == export_text(prev) + record(evs.last()) + seq!['\n']);
    }
}

} // verus!
