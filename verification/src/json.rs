//! The parameter JSON as JSON: strings written with JSON escapes, a reader for the subset
//! of JSON that [`params_json`](crate::params::params_json) writes, and the law that it reads
//! back every parameter written. Everything the reader accepts is JSON: an array of objects
//! with the keys `name`, `value`, `min`, `max`; strings whose escapes are `\"`, `\\` and
//! `\u0000`..`\u001f`; numbers without exponent, or `null`.

use vstd::prelude::*;
use vstd::string::{StrSliceExecFns, StringExecFns};

use crate::params::{param_json_item, params_json_text, ParamText};
use crate::text::joined;

verus! {

/// The lowercase hexadecimal digit of `d` (below 16).
pub open spec fn hex_char(d: nat) -> char {
    if d == 0 {
        '0'
    } else if d == 1 {
        '1'
    } else if d == 2 {
        '2'
    } else if d == 3 {
        '3'
    } else if d == 4 {
        '4'
    } else if d == 5 {
        '5'
    } else if d == 6 {
        '6'
    } else if d == 7 {
        '7'
    } else if d == 8 {
        '8'
    } else if d == 9 {
        '9'
    } else if d == 10 {
        'a'
    } else if d == 11 {
        'b'
    } else if d == 12 {
        'c'
    } else if d == 13 {
        'd'
    } else if d == 14 {
        'e'
    } else {
        'f'
    }
}

/// The value of a hexadecimal digit, or -1 for any other character.
pub open spec fn hex_value(c: char) -> int {
    if '0' <= c && c <= '9' {
        (c as int) - 0x30
    } else if 'a' <= c && c <= 'f' {
        (c as int) - 0x61 + 10
    } else if 'A' <= c && c <= 'F' {
        (c as int) - 0x41 + 10
    } else {
        -1
    }
}

/// How one character is written inside a JSON string: `"` and `\` behind a backslash, a
/// control character as `\u00` and two hexadecimal digits, every other character as it is.
pub open spec fn json_escape_char(c: char) -> Seq<char> {
    if c == '"' {
        seq!['\\', '"']
    } else if c == '\\' {
        seq!['\\', '\\']
    } else if (c as u32) < 0x20 {
        seq![
            '\\',
            'u',
            '0',
            '0',
            hex_char(((c as u32) / 16) as nat),
            hex_char(((c as u32) % 16) as nat),
        ]
    } else {
        seq![c]
    }
}

/// The characters of a text written inside a JSON string.
pub open spec fn json_escape(s: Seq<char>) -> Seq<char>
    decreases s.len(),
{
    if s.len() == 0 {
        Seq::empty()
    } else {
        json_escape(s.drop_last()) + json_escape_char(s.last())
    }
}

/// A text written as a JSON string: quoted and escaped.
pub open spec fn json_string(s: Seq<char>) -> Seq<char> {
    seq!['"'] + json_escape(s) + seq!['"']
}

fn hex_str(d: u32) -> (s: &'static str)
    requires
        d < 16,
    ensures
        s@ == seq![hex_char(d as nat)],
{
    if d == 0 {
        proof { reveal_strlit("0"); }
        "0"
    } else if d == 1 {
        proof { reveal_strlit("1"); }
        "1"
    } else if d == 2 {
        proof { reveal_strlit("2"); }
        "2"
    } else if d == 3 {
        proof { reveal_strlit("3"); }
        "3"
    } else if d == 4 {
        proof { reveal_strlit("4"); }
        "4"
    } else if d == 5 {
        proof { reveal_strlit("5"); }
        "5"
    } else if d == 6 {
        proof { reveal_strlit("6"); }
        "6"
    } else if d == 7 {
        proof { reveal_strlit("7"); }
        "7"
    } else if d == 8 {
        proof { reveal_strlit("8"); }
        "8"
    } else if d == 9 {
        proof { reveal_strlit("9"); }
        "9"
    } else if d == 10 {
        proof { reveal_strlit("a"); }
        "a"
    } else if d == 11 {
        proof { reveal_strlit("b"); }
        "b"
    } else if d == 12 {
        proof { reveal_strlit("c"); }
        "c"
    } else if d == 13 {
        proof { reveal_strlit("d"); }
        "d"
    } else if d == 14 {
        proof { reveal_strlit("e"); }
        "e"
    } else {
        proof { reveal_strlit("f"); }
        "f"
    }
}

/// Appends `s` to `out` as a JSON string: in double quotes, with `"`, `\` and control
/// characters escaped.
pub fn write_json_string(s: &String, out: &mut String)
    ensures
        final(out)@ == old(out)@ + json_string(s@),
{
    let ghost start = out@;
    proof {
        reveal_strlit("\"");
        reveal_strlit("\\\"");
        reveal_strlit("\\\\");
        reveal_strlit("\\u00");
    }
    out.append("\"");
    let text = s.as_str();
    let n = text.unicode_len();
    let mut i: usize = 0;
    while i < n
        invariant
            n == s@.len(),
            text@ == s@,
            i <= n,
            out@ == start + seq!['"'] + json_escape(s@.take(i as int)),
        decreases n - i,
    {
        let c = text.get_char(i);
        let ghost before = out@;
        proof {
            reveal_strlit("\\\"");
            reveal_strlit("\\\\");
            reveal_strlit("\\u00");
        }
        if c == '"' {
            out.append("\\\"");
        } else if c == '\\' {
            out.append("\\\\");
        } else if (c as u32) < 0x20 {
            out.append("\\u00");
            out.append(hex_str((c as u32) / 16));
            out.append(hex_str((c as u32) % 16));
        } else {
            out.append(text.substring_char(i, i + 1));
        }
        proof {
            assert(out@ =~= before + json_escape_char(c));
            assert(s@.take(i + 1).drop_last() =~= s@.take(i as int));
            assert(s@.take(i + 1).last() == c);
        }
        i = i + 1;
    }
    proof {
        assert(s@.take(n as int) =~= s@);
    }
    out.append("\"");
    assert(out@ =~= start + json_string(s@));
}

/// The four fields of a parameter object as read back: name, value, min, max.
pub struct ParamFields {
    pub name: Seq<char>,
    pub value: Seq<char>,
    pub min: Seq<char>,
    pub max: Seq<char>,
}

/// The fields a row was written from.
pub open spec fn row_fields(r: ParamText) -> ParamFields {
    ParamFields { name: r.name@, value: r.value@, min: r.min@, max: r.max@ }
}

/// Every character is a decimal digit.
pub open spec fn all_digits(s: Seq<char>) -> bool {
    forall|i: int| 0 <= i < s.len() ==> '0' <= #[trigger] s[i] && s[i] <= '9'
}

/// The integer part of a JSON number: digits, with no leading zero.
pub open spec fn json_int_part(s: Seq<char>) -> bool {
    s.len() > 0 && all_digits(s) && (s[0] == '0' ==> s.len() == 1)
}

/// A JSON number without sign or exponent: an integer part, then a fraction if any.
pub open spec fn json_unsigned(m: Seq<char>) -> bool {
    ||| json_int_part(m)
    ||| exists|k: int|
        0 < k < m.len() - 1 && json_int_part(#[trigger] m.take(k)) && m[k] == '.' && all_digits(
            m.skip(k + 1),
        )
}

/// A JSON number without exponent (as `f64`'s `Display` writes a finite value).
pub open spec fn json_number(n: Seq<char>) -> bool {
    if n.len() > 0 && n[0] == '-' {
        json_unsigned(n.drop_first())
    } else {
        json_unsigned(n)
    }
}

/// A JSON number without exponent, or `null`.
pub open spec fn json_scalar(n: Seq<char>) -> bool {
    json_number(n) || n == seq!['n', 'u', 'l', 'l']
}

/// Every row's value, min and max are JSON numbers or `null`.
pub open spec fn scalar_texts(rows: Seq<ParamText>) -> bool {
    forall|i: int|
        0 <= i < rows.len() ==> {
            &&& json_scalar(#[trigger] rows[i].value@)
            &&& json_scalar(rows[i].min@)
            &&& json_scalar(rows[i].max@)
        }
}

/// The rest of `t` after `lit`, where `t` starts with `lit`.
pub open spec fn expect(t: Seq<char>, lit: Seq<char>) -> Option<Seq<char>> {
    if lit.len() <= t.len() && t.take(lit.len() as int) == lit {
        Some(t.skip(lit.len() as int))
    } else {
        None
    }
}

/// Reads the body of a JSON string after its opening quote: the text it stands for and what
/// follows the closing quote. Accepted escapes: `\"`, `\\`, `\u0000`..`\u001f`; a raw
/// control character is refused.
pub open spec fn scan_string(t: Seq<char>) -> Option<(Seq<char>, Seq<char>)>
    decreases t.len(),
{
    if t.len() == 0 {
        None
    } else if t[0] == '"' {
        Some((Seq::empty(), t.drop_first()))
    } else if t[0] == '\\' {
        if t.len() >= 2 && (t[1] == '"' || t[1] == '\\') {
            match scan_string(t.skip(2)) {
                Some((d, r)) => Some((seq![t[1]] + d, r)),
                None => None,
            }
        } else if t.len() >= 6 && t[1] == 'u' && t[2] == '0' && t[3] == '0' && 0 <= hex_value(
            t[4],
        ) < 2 && 0 <= hex_value(t[5]) {
            let v = hex_value(t[4]) * 16 + hex_value(t[5]);
            match scan_string(t.skip(6)) {
                Some((d, r)) => Some((seq![(v as u32) as char] + d, r)),
                None => None,
            }
        } else {
            None
        }
    } else if (t[0] as u32) < 0x20 {
        None
    } else {
        match scan_string(t.drop_first()) {
            Some((d, r)) => Some((seq![t[0]] + d, r)),
            None => None,
        }
    }
}

/// Reads a number or `null`: the characters up to the next `,` or `}`, and the rest from
/// there.
pub open spec fn scan_number(t: Seq<char>) -> (Seq<char>, Seq<char>)
    decreases t.len(),
{
    if t.len() == 0 {
        (Seq::empty(), Seq::empty())
    } else if t[0] == ',' || t[0] == '}' {
        (Seq::empty(), t)
    } else {
        let (n, r) = scan_number(t.drop_first());
        (seq![t[0]] + n, r)
    }
}

/// Reads one parameter object and what follows it.
pub open spec fn parse_object(t: Seq<char>) -> Option<(ParamFields, Seq<char>)> {
    match expect(t, "{\"name\":"@) {
        None => None,
        Some(t1) => match expect(t1, seq!['"']) {
            None => None,
            Some(t2) => match scan_string(t2) {
                None => None,
                Some((name, t3)) => match expect(t3, ",\"value\":"@) {
                    None => None,
                    Some(t4) => {
                        let (value, t5) = scan_number(t4);
                        match expect(t5, ",\"min\":"@) {
                            None => None,
                            Some(t6) => {
                                let (min, t7) = scan_number(t6);
                                match expect(t7, ",\"max\":"@) {
                                    None => None,
                                    Some(t8) => {
                                        let (max, t9) = scan_number(t8);
                                        if json_scalar(value) && json_scalar(min) && json_scalar(
                                            max,
                                        ) {
                                            match expect(t9, "}"@) {
                                                None => None,
                                                Some(t10) => Some(
                                                    (ParamFields { name, value, min, max }, t10),
                                                ),
                                            }
                                        } else {
                                            None
                                        }
                                    },
                                }
                            },
                        }
                    },
                },
            },
        },
    }
}

/// Reads a comma-separated, non-empty list of objects closed by `]` (at most `fuel` of them).
pub open spec fn parse_items(t: Seq<char>, fuel: nat) -> Option<Seq<ParamFields>>
    decreases fuel,
{
    if fuel == 0 {
        None
    } else {
        match parse_object(t) {
            None => None,
            Some((f, r)) => if r == "]"@ {
                Some(seq![f])
            } else if r.len() > 0 && r[0] == ',' {
                match parse_items(r.drop_first(), (fuel - 1) as nat) {
                    Some(fs) => Some(seq![f] + fs),
                    None => None,
                }
            } else {
                None
            },
        }
    }
}

/// Reads a parameter array: `[]`, or `[` objects separated by `,` and `]`.
pub open spec fn parse_params_json(t: Seq<char>) -> Option<Seq<ParamFields>> {
    match expect(t, "["@) {
        None => None,
        Some(r) => if r == "]"@ {
            Some(Seq::empty())
        } else {
            parse_items(r, t.len())
        },
    }
}

proof fn lemma_expect(lit: Seq<char>, rest: Seq<char>)
    ensures
        expect(lit + rest, lit) == Some(rest),
{
    assert((lit + rest).take(lit.len() as int) =~= lit);
    assert((lit + rest).skip(lit.len() as int) =~= rest);
}

proof fn lemma_escape_concat(a: Seq<char>, b: Seq<char>)
    ensures
        json_escape(a + b) == json_escape(a) + json_escape(b),
    decreases b.len(),
{
    if b.len() == 0 {
        assert(a + b =~= a);
        assert(json_escape(a) + json_escape(b) =~= json_escape(a));
    } else {
        lemma_escape_concat(a, b.drop_last());
        assert((a + b).drop_last() =~= a + b.drop_last());
        assert((a + b).last() == b.last());
        assert(json_escape(a + b) =~= json_escape(a) + json_escape(b));
    }
}

proof fn lemma_escape_front(s: Seq<char>)
    requires
        s.len() > 0,
    ensures
        json_escape(s) == json_escape_char(s[0]) + json_escape(s.drop_first()),
{
    let c = seq![s[0]];
    lemma_escape_concat(c, s.drop_first());
    assert(c + s.drop_first() =~= s);
    assert(c.drop_last() =~= Seq::<char>::empty());
    assert(json_escape(c.drop_last()) == json_escape(Seq::<char>::empty()));
    assert(json_escape(Seq::<char>::empty()) =~= Seq::<char>::empty());
    assert(c.last() == s[0]);
    assert(json_escape(c) == json_escape(c.drop_last()) + json_escape_char(c.last()));
    assert(json_escape(c) =~= json_escape_char(s[0]));
}

proof fn lemma_hex_roundtrip(d: nat)
    requires
        d < 16,
    ensures
        hex_value(hex_char(d)) == d,
{
}

proof fn lemma_control_char(c: char)
    requires
        (c as u32) < 0x20,
    ensures
        (c as u32) / 16 < 2,
        json_escape_char(c) == seq![
            '\\',
            'u',
            '0',
            '0',
            hex_char(((c as u32) / 16) as nat),
            hex_char(((c as u32) % 16) as nat),
        ],
        ((((c as u32) / 16 * 16 + (c as u32) % 16) as u32) as char) == c,
{
    let v = c as u32;
    assert(v / 16 * 16 + v % 16 == v);
}

/// Every text written as a JSON string reads back: the reader gives the text and stops after
/// the closing quote.
pub proof fn law_json_string_reads_back(s: Seq<char>, rest: Seq<char>)
    ensures
        scan_string(json_escape(s) + seq!['"'] + rest) == Some((s, rest)),
    decreases s.len(),
{
    let t = json_escape(s) + seq!['"'] + rest;
    if s.len() == 0 {
        assert(t =~= seq!['"'] + rest);
        assert(t.drop_first() =~= rest);
    } else {
        let c = s[0];
        let tail = s.drop_first();
        lemma_escape_front(s);
        law_json_string_reads_back(tail, rest);
        let after = json_escape(tail) + seq!['"'] + rest;
        assert(t =~= json_escape_char(c) + after);
        if c == '"' || c == '\\' {
            assert(t[0] == '\\');
            assert(t[1] == c);
            assert(t.skip(2) =~= after);
        } else if (c as u32) < 0x20 {
            let hi = ((c as u32) / 16) as nat;
            let lo = ((c as u32) % 16) as nat;
            lemma_control_char(c);
            lemma_hex_roundtrip(hi);
            lemma_hex_roundtrip(lo);
            let e = json_escape_char(c);
            assert(e.len() == 6);
            assert(t[0] == e[0] && t[1] == e[1] && t[2] == e[2] && t[3] == e[3]);
            assert(t[4] == e[4] && t[5] == e[5]);
            assert(t.skip(6) =~= after);
        } else {
            assert(t[0] == c);
            assert(t.drop_first() =~= after);
        }
        assert(seq![c] + tail =~= s);
    }
}

proof fn lemma_scalar_has_no_delims(n: Seq<char>)
    requires
        json_scalar(n),
    ensures
        forall|i: int| 0 <= i < n.len() ==> #[trigger] n[i] != ',' && n[i] != '}',
{
    assert forall|i: int| 0 <= i < n.len() implies #[trigger] n[i] != ',' && n[i] != '}' by {
        if n == seq!['n', 'u', 'l', 'l'] {
        } else {
            let neg = n.len() > 0 && n[0] == '-';
            let m = if neg { n.drop_first() } else { n };
            let j = if neg { i - 1 } else { i };
            if neg && i == 0 {
            } else {
                assert(m[j] == n[i]);
                if json_int_part(m) {
                    assert('0' <= m[j] && m[j] <= '9');
                } else {
                    let k = choose|k: int|
                        0 < k < m.len() - 1 && json_int_part(#[trigger] m.take(k)) && m[k] == '.'
                            && all_digits(m.skip(k + 1));
                    if j < k {
                        assert(m.take(k)[j] == m[j]);
                        assert('0' <= m.take(k)[j] && m.take(k)[j] <= '9');
                    } else if j > k {
                        assert(m.skip(k + 1)[j - k - 1] == m[j]);
                        assert('0' <= m.skip(k + 1)[j - k - 1] && m.skip(k + 1)[j - k - 1] <= '9');
                    }
                }
            }
        }
    }
}

proof fn lemma_scan_number(n: Seq<char>, rest: Seq<char>)
    requires
        forall|i: int| 0 <= i < n.len() ==> #[trigger] n[i] != ',' && n[i] != '}',
        rest.len() > 0,
        rest[0] == ',' || rest[0] == '}',
    ensures
        scan_number(n + rest) == (n, rest),
    decreases n.len(),
{
    let t = n + rest;
    if n.len() == 0 {
        assert(t =~= rest);
    } else {
        let tail = n.drop_first();
        assert forall|i: int| 0 <= i < tail.len() implies #[trigger] tail[i] != ',' && tail[i]
            != '}' by {
            assert(tail[i] == n[i + 1]);
        }
        lemma_scan_number(tail, rest);
        assert(n[0] != ',' && n[0] != '}');
        assert(t[0] == n[0]);
        assert(t.drop_first() =~= tail + rest);
        assert(seq![n[0]] + tail =~= n);
    }
}

#[verifier::rlimit(40)]
proof fn lemma_parse_object(r: ParamText, rest: Seq<char>)
    requires
        json_scalar(r.value@),
        json_scalar(r.min@),
        json_scalar(r.max@),
    ensures
        parse_object(param_json_item(r) + rest) == Some((row_fields(r), rest)),
{
    reveal_strlit(",\"min\":");
    reveal_strlit(",\"max\":");
    reveal_strlit("}");
    lemma_scalar_has_no_delims(r.value@);
    lemma_scalar_has_no_delims(r.min@);
    lemma_scalar_has_no_delims(r.max@);
    let p_name = "{\"name\":"@;
    let p_value = ",\"value\":"@;
    let p_min = ",\"min\":"@;
    let p_max = ",\"max\":"@;
    let close = "}"@;
    let name = r.name@;
    let t = param_json_item(r) + rest;
    let t1 = seq!['"'] + json_escape(name) + seq!['"'] + p_value + r.value@ + p_min + r.min@
        + p_max + r.max@ + close + rest;
    assert(t =~= p_name + t1);
    lemma_expect(p_name, t1);
    let t3 = p_value + r.value@ + p_min + r.min@ + p_max + r.max@ + close + rest;
    let t2 = json_escape(name) + seq!['"'] + t3;
    assert(t1 =~= seq!['"'] + t2);
    lemma_expect(seq!['"'], t2);
    law_json_string_reads_back(name, t3);
    let t4 = r.value@ + (p_min + r.min@ + p_max + r.max@ + close + rest);
    assert(t3 =~= p_value + t4);
    lemma_expect(p_value, t4);
    let t5 = p_min + r.min@ + p_max + r.max@ + close + rest;
    assert(t5[0] == ',');
    lemma_scan_number(r.value@, t5);
    let t6 = r.min@ + (p_max + r.max@ + close + rest);
    assert(t5 =~= p_min + t6);
    lemma_expect(p_min, t6);
    let t7 = p_max + r.max@ + close + rest;
    assert(t7[0] == ',');
    lemma_scan_number(r.min@, t7);
    let t8 = r.max@ + (close + rest);
    assert(t7 =~= p_max + t8);
    lemma_expect(p_max, t8);
    let t9 = close + rest;
    assert(t9[0] == '}');
    lemma_scan_number(r.max@, t9);
    lemma_expect(close, rest);
}

proof fn lemma_joined_front(parts: Seq<Seq<char>>, sep: Seq<char>)
    requires
        parts.len() >= 2,
    ensures
        joined(parts, sep) == parts[0] + sep + joined(parts.drop_first(), sep),
    decreases parts.len(),
{
    let dl = parts.drop_last();
    let df = parts.drop_first();
    if parts.len() == 2 {
        assert(dl =~= seq![parts[0]]);
        assert(df =~= seq![parts[1]]);
        assert(joined(dl, sep) == parts[0]);
        assert(joined(df, sep) == parts[1]);
        assert(joined(parts, sep) == joined(dl, sep) + sep + parts.last());
    } else {
        lemma_joined_front(dl, sep);
        assert(dl.drop_first() =~= df.drop_last());
        assert(df.last() == parts.last());
        assert(dl[0] == parts[0]);
        assert(joined(df, sep) == joined(df.drop_last(), sep) + sep + df.last());
        assert(joined(parts, sep) == joined(dl, sep) + sep + parts.last());
        assert(joined(parts, sep) =~= parts[0] + sep + joined(df, sep));
    }
}

proof fn lemma_joined_len(parts: Seq<Seq<char>>, sep: Seq<char>)
    requires
        forall|i: int| 0 <= i < parts.len() ==> (#[trigger] parts[i]).len() > 0,
    ensures
        joined(parts, sep).len() >= parts.len(),
    decreases parts.len(),
{
    if parts.len() >= 2 {
        assert forall|i: int| 0 <= i < parts.drop_last().len() implies (
        #[trigger] parts.drop_last()[i]).len() > 0 by {
            assert(parts.drop_last()[i] == parts[i]);
        }
        lemma_joined_len(parts.drop_last(), sep);
        assert(parts.last().len() > 0);
        assert(joined(parts, sep) == joined(parts.drop_last(), sep) + sep + parts.last());
        assert(joined(parts, sep).len() == joined(parts.drop_last(), sep).len() + sep.len()
            + parts.last().len());
    } else if parts.len() == 1 {
        assert(parts[0].len() > 0);
        assert(joined(parts, sep) == parts[0]);
    }
}

/// The objects written for the rows.
pub open spec fn json_items(rows: Seq<ParamText>) -> Seq<Seq<char>> {
    rows.map_values(|r: ParamText| param_json_item(r))
}

#[verifier::rlimit(100)]
proof fn lemma_parse_items(rows: Seq<ParamText>, fuel: nat)
    requires
        rows.len() > 0,
        fuel >= rows.len(),
        scalar_texts(rows),
    ensures
        parse_items(joined(json_items(rows), ","@) + "]"@, fuel) == Some(
            rows.map_values(|r: ParamText| row_fields(r)),
        ),
    decreases rows.len(),
{
    reveal_strlit("]");
    reveal_strlit(",");
    let items = json_items(rows);
    let r0 = rows[0];
    assert(json_scalar(rows[0].value@));
    if rows.len() == 1 {
        assert(joined(items, ","@) == items[0]);
        lemma_parse_object(r0, "]"@);
        assert(rows.map_values(|r: ParamText| row_fields(r)) =~= seq![row_fields(r0)]);
    } else {
        let rest = rows.drop_first();
        assert(scalar_texts(rest)) by {
            assert forall|i: int| 0 <= i < rest.len() implies json_scalar(
                #[trigger] rest[i].value@,
            ) && json_scalar(rest[i].min@) && json_scalar(rest[i].max@) by {
                assert(rest[i] == rows[i + 1]);
                assert(json_scalar(rows[i + 1].value@));
            }
        }
        lemma_joined_front(items, ","@);
        assert(items.drop_first() =~= json_items(rest));
        let tail = joined(json_items(rest), ","@) + "]"@;
        let t = joined(items, ","@) + "]"@;
        assert(t =~= items[0] + (","@ + tail));
        lemma_parse_object(r0, ","@ + tail);
        let after = ","@ + tail;
        assert(after[0] == ',');
        assert(after != "]"@) by {
            assert(after[0] != "]"@[0]);
        }
        assert(after.drop_first() =~= tail);
        lemma_parse_items(rest, (fuel - 1) as nat);
        assert(rows.map_values(|r: ParamText| row_fields(r)) =~= seq![row_fields(r0)]
            + rest.map_values(|r: ParamText| row_fields(r)));
    }
}

/// Every parameter written can be read back: where the number texts are JSON numbers or
/// `null`, reading the JSON array gives each row's name, value, min and max, in order.
pub proof fn law_params_json_reads_back(rows: Seq<ParamText>)
    requires
        scalar_texts(rows),
    ensures
        parse_params_json(params_json_text(rows)) == Some(
            rows.map_values(|r: ParamText| row_fields(r)),
        ),
{
    reveal_strlit("]");
    let items = json_items(rows);
    let t = params_json_text(rows);
    let body = joined(items, ","@) + "]"@;
    assert(t =~= "["@ + body);
    lemma_expect("["@, body);
    if rows.len() == 0 {
        assert(joined(items, ","@) =~= Seq::<char>::empty());
        assert(body =~= "]"@);
        assert(rows.map_values(|r: ParamText| row_fields(r)) =~= Seq::<ParamFields>::empty());
    } else {
        reveal_strlit("{\"name\":");
        assert forall|i: int| 0 <= i < items.len() implies (#[trigger] items[i]).len() > 0 by {
            assert(items[i] == param_json_item(rows[i]));
        }
        lemma_joined_len(items, ","@);
        assert(body.len() > 1);
        assert(body != "]"@);
        lemma_parse_items(rows, t.len());
    }
}

} // verus!
