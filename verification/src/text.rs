//! Text building blocks: decimal rendering of integers and joining with a separator.

use vstd::prelude::*;
use vstd::string::StringExecFns;

verus! {

/// The ASCII character of a decimal digit.
pub open spec fn digit_char(d: nat) -> char {
    if d == 0 {
        '0'
    } else if d == 1 {
        '1'
    } else if d == 2 {
        '2'
    } else if d == 3 {
        '3'
    } else if d == 4 {
        '4'
    } else if d == 5 {
        '5'
    } else if d == 6 {
        '6'
    } else if d == 7 {
        '7'
    } else if d == 8 {
        '8'
    } else {
        '9'
    }
}

/// Decimal digits of a natural number, most significant first, without leading zeros.
pub open spec fn nat_decimal(n: nat) -> Seq<char>
    decreases n,
{
    if n < 10 {
        seq![digit_char(n)]
    } else {
        nat_decimal(n / 10).push(digit_char(n % 10))
    }
}

/// Decimal text of an integer: a leading `-` for negative values.
pub open spec fn int_decimal(i: int) -> Seq<char> {
    if i < 0 {
        seq!['-'] + nat_decimal((-i) as nat)
    } else {
        nat_decimal(i as nat)
    }
}

/// The value of a decimal digit character, or -1 for any other character.
pub open spec fn digit_value(c: char) -> int {
    if c == '0' {
        0
    } else if c == '1' {
        1
    } else if c == '2' {
        2
    } else if c == '3' {
        3
    } else if c == '4' {
        4
    } else if c == '5' {
        5
    } else if c == '6' {
        6
    } else if c == '7' {
        7
    } else if c == '8' {
        8
    } else if c == '9' {
        9
    } else {
        -1
    }
}

/// The number a string of decimal digits stands for, most significant digit first.
pub open spec fn decimal_value(s: Seq<char>) -> int
    decreases s.len(),
{
    if s.len() == 0 {
        0
    } else {
        decimal_value(s.drop_last()) * 10 + digit_value(s.last())
    }
}

/// A non-empty string of decimal digits without a leading zero (but `0` itself).
pub open spec fn plain_digits(s: Seq<char>) -> bool {
    &&& s.len() > 0
    &&& forall|k: int| 0 <= k < s.len() ==> 0 <= #[trigger] digit_value(s[k])
    &&& s.len() > 1 ==> s[0] != '0'
}

proof fn lemma_nat_decimal_reads_back(n: nat)
    ensures
        plain_digits(nat_decimal(n)),
        decimal_value(nat_decimal(n)) == n,
    decreases n,
{
    let s = nat_decimal(n);
    assert(decimal_value(Seq::<char>::empty()) == 0);
    if n < 10 {
        assert(s.drop_last() =~= Seq::<char>::empty());
        assert(digit_value(digit_char(n)) == n);
        assert(decimal_value(s) == decimal_value(s.drop_last()) * 10 + digit_value(s.last()));
    } else {
        let t = nat_decimal(n / 10);
        lemma_nat_decimal_reads_back(n / 10);
        assert(s.drop_last() =~= t);
        assert(s.last() == digit_char(n % 10));
        assert(digit_value(digit_char(n % 10)) == n % 10);
        assert(decimal_value(s) == decimal_value(t) * 10 + digit_value(s.last()));
        assert(n == (n / 10) * 10 + n % 10);
        assert forall|k: int| 0 <= k < s.len() implies 0 <= #[trigger] digit_value(s[k]) by {
            if k < t.len() {
                assert(s[k] == t[k]);
            }
        }
        assert(s[0] == t[0]);
        if t.len() == 1 {
            assert(t.drop_last() =~= Seq::<char>::empty());
            assert(t.last() == t[0]);
            assert(decimal_value(t) == decimal_value(t.drop_last()) * 10 + digit_value(t.last()));
            assert(decimal_value(t) == digit_value(t[0]));
        }
    }
}

/// The decimal text of an integer reads back as that integer: a non-negative one is plain
/// digits (no sign, no leading zero) worth the integer; a negative one is `-` followed by
/// plain digits worth its magnitude. No other text has this property, so this fixes the text.
pub proof fn law_int_decimal_reads_back(i: int)
    ensures
        i >= 0 ==> plain_digits(int_decimal(i)) && decimal_value(int_decimal(i)) == i,
        i < 0 ==> int_decimal(i).len() > 1 && int_decimal(i)[0] == '-' && plain_digits(
            int_decimal(i).drop_first(),
        ) && decimal_value(int_decimal(i).drop_first()) == -i,
{
    if i >= 0 {
        lemma_nat_decimal_reads_back(i as nat);
    } else {
        lemma_nat_decimal_reads_back((-i) as nat);
        assert(int_decimal(i).drop_first() =~= nat_decimal((-i) as nat));
    }
}

/// The parts laid end to end with `sep` between neighbours.
pub open spec fn joined(parts: Seq<Seq<char>>, sep: Seq<char>) -> Seq<char>
    decreases parts.len(),
{
    if parts.len() == 0 {
        Seq::empty()
    } else if parts.len() == 1 {
        parts[0]
    } else {
        joined(parts.drop_last(), sep) + sep + parts.last()
    }
}

/// The views of a vector of strings.
pub open spec fn string_views(v: Seq<String>) -> Seq<Seq<char>> {
    v.map_values(|s: String| s@)
}

fn digit_str(d: u64) -> (s: &'static str)
    requires
        d < 10,
    ensures
        s@ == seq![digit_char(d as nat)],
{
    if d == 0 {
        proof { reveal_strlit("0"); }
        "0"
    } else if d == 1 {
        proof { reveal_strlit("1"); }
        "1"
    } else if d == 2 {
        proof { reveal_strlit("2"); }
        "2"
    } else if d == 3 {
        proof { reveal_strlit("3"); }
        "3"
    } else if d == 4 {
        proof { reveal_strlit("4"); }
        "4"
    } else if d == 5 {
        proof { reveal_strlit("5"); }
        "5"
    } else if d == 6 {
        proof { reveal_strlit("6"); }
        "6"
    } else if d == 7 {
        proof { reveal_strlit("7"); }
        "7"
    } else if d == 8 {
        proof { reveal_strlit("8"); }
        "8"
    } else {
        proof { reveal_strlit("9"); }
        "9"
    }
}

fn append_decimal(n: u64, out: &mut String)
    ensures
        final(out)@ == old(out)@ + nat_decimal(n as nat),
    decreases n,
{
    if n >= 10 {
        append_decimal(n / 10, out);
    }
    out.append(digit_str(n % 10));
    proof {
        assert(old(out)@ + nat_decimal(n as nat) =~= old(out)@ + (if n >= 10 {
            nat_decimal((n / 10) as nat)
        } else {
            Seq::empty()
        }) + seq![digit_char((n % 10) as nat)]);
    }
}

/// Renders an integer in decimal, as `i64::to_string` does.
pub fn i64_to_decimal(i: i64) -> (s: String)
    ensures
        s@ == int_decimal(i as int),
{
    let mut out = String::new();
    if i < 0 {
        out.append("-");
        proof { reveal_strlit("-"); }
        let magnitude: u64 = (-(i as i128)) as u64;
        append_decimal(magnitude, &mut out);
    } else {
        append_decimal(i as u64, &mut out);
    }
    out
}

/// Joins the strings with `sep` between neighbours, as `[String]::join` does.
pub fn join_strings(parts: &Vec<String>, sep: &str) -> (s: String)
    ensures
        s@ == joined(string_views(parts@), sep@),
        parts@.len() == 0 ==> s@ == Seq::<char>::empty(),
        parts@.len() == 1 ==> s@ == parts@[0]@,
        parts@.len() == 2 ==> s@ == parts@[0]@ + sep@ + parts@[1]@,
{
    let mut out = String::new();
    let ghost views = string_views(parts@);
    let mut i: usize = 0;
    while i < parts.len()
        invariant
            i <= parts.len(),
            views == string_views(parts@),
            out@ == joined(views.take(i as int), sep@),
        decreases parts.len() - i,
    {
        if i > 0 {
            out.append(sep);
        }
        out.append(parts[i].as_str());
        proof {
            assert(views.take(i + 1).drop_last() =~= views.take(i as int));
            assert(views.take(i + 1).last() == parts@[i as int]@);
            if i == 0 {
                assert(views.take(1) =~= seq![parts@[0]@]);
            }
        }
        i = i + 1;
    }
    proof {
        assert(views.take(parts.len() as int) =~= views);
        if parts@.len() == 2 {
            assert(views.drop_last() =~= seq![views[0]]);
            assert(joined(views.drop_last(), sep@) == views[0]);
        }
    }
    out
}

/// Joining nothing gives the empty text, and joining one part gives that part.
pub proof fn law_joined_small(p: Seq<char>, sep: Seq<char>)
    ensures
        joined(Seq::<Seq<char>>::empty(), sep) == Seq::<char>::empty(),
        joined(seq![p], sep) == p,
{
}

/// Joining two non-empty runs of parts is joining each and putting `sep` between them: the
/// separator stands between neighbours, exactly once, and nowhere else.
pub proof fn law_joined_splits(a: Seq<Seq<char>>, b: Seq<Seq<char>>, sep: Seq<char>)
    requires
        a.len() > 0,
        b.len() > 0,
    ensures
        joined(a + b, sep) == joined(a, sep) + sep + joined(b, sep),
    decreases b.len(),
{
    if b.len() == 1 {
        assert((a + b).drop_last() =~= a);
        assert((a + b).last() == b[0]);
    } else {
        law_joined_splits(a, b.drop_last(), sep);
        assert((a + b).drop_last() =~= a + b.drop_last());
        assert((a + b).last() == b.last());
        assert(joined(a + b, sep) =~= joined(a, sep) + sep + joined(b, sep));
    }
}

} // verus!
