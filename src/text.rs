//! Text building blocks shared by the printers: decimal numbers, joins, indentation.
use vstd::prelude::*;

verus! {

/// The character of one decimal digit.
pub open spec fn digit_char(d: nat) -> char {
    if d == 0 { '0' } else if d == 1 { '1' } else if d == 2 { '2' } else if d == 3 { '3' }
    else if d == 4 { '4' } else if d == 5 { '5' } else if d == 6 { '6' } else if d == 7 { '7' }
    else if d == 8 { '8' } else { '9' }
}

/// Decimal digits of a natural number, most significant first, without leading zeros.
pub open spec fn decimal_text(n: nat) -> Seq<char>
    decreases n,
{
    if n < 10 {
        seq![digit_char(n)]
    } else {
        decimal_text(n / 10).push(digit_char(n % 10))
    }
}

/// Decimal text of an integer, with a leading `-` when negative.
pub open spec fn integer_text(i: int) -> Seq<char> {
    if i < 0 {
        seq!['-'] + decimal_text((-i) as nat)
    } else {
        decimal_text(i as nat)
    }
}

/// The number of decimal digits of `n`.
pub open spec fn digit_count(n: nat) -> nat
    decreases n,
{
    if n < 10 { 1 } else { 1 + digit_count(n / 10) }
}

/// `parts` with `sep` between each two neighbours.
pub open spec fn join(parts: Seq<Seq<char>>, sep: Seq<char>) -> Seq<char>
    decreases parts.len(),
{
    if parts.len() == 0 {
        Seq::empty()
    } else if parts.len() == 1 {
        parts[0]
    } else {
        join(parts.drop_last(), sep) + sep + parts.last()
    }
}

/// Extending a join by one part.
pub proof fn lemma_join_push(parts: Seq<Seq<char>>, p: Seq<char>, sep: Seq<char>)
    ensures
        join(parts.push(p), sep) == if parts.len() == 0 { p } else { join(parts, sep) + sep + p },
{
    assert(parts.push(p).drop_last() =~= parts);
}

fn digit_str(d: u64) -> (r: &'static str)
    requires
        d < 10,
    ensures
        r@ == seq![digit_char(d as nat)],
{
    proof {
        reveal_strlit("0");
        reveal_strlit("1");
        reveal_strlit("2");
        reveal_strlit("3");
        reveal_strlit("4");
        reveal_strlit("5");
        reveal_strlit("6");
        reveal_strlit("7");
        reveal_strlit("8");
        reveal_strlit("9");
    }
    if d == 0 { "0" } else if d == 1 { "1" } else if d == 2 { "2" } else if d == 3 { "3" }
    else if d == 4 { "4" } else if d == 5 { "5" } else if d == 6 { "6" } else if d == 7 { "7" }
    else if d == 8 { "8" } else { "9" }
}

/// Appends the decimal digits of `n`.
pub fn push_decimal(s: &mut String, n: u64)
    ensures
        final(s)@ == old(s)@ + decimal_text(n as nat),
    decreases n,
{
    if n < 10 {
        s.append(digit_str(n));
    } else {
        push_decimal(s, n / 10);
        s.append(digit_str(n % 10));
        assert(decimal_text(n as nat) == decimal_text((n / 10) as nat).push(digit_char((n % 10) as nat)));
        assert(final(s)@ =~= old(s)@ + decimal_text(n as nat));
    }
}

/// Appends the decimal text of a signed integer.
pub fn push_integer(s: &mut String, i: i64)
    ensures
        final(s)@ == old(s)@ + integer_text(i as int),
{
    if i < 0 {
        s.append("-");
        proof { reveal_strlit("-"); }
        let m: u64 = (-(i as i128)) as u64;
        push_decimal(s, m);
        assert(final(s)@ =~= old(s)@ + integer_text(i as int));
    } else {
        push_decimal(s, i as u64);
    }
}

/// Relies on std's `String::push`: the character is appended at the end.
#[verifier::external_body]
pub(crate) fn push_char(s: &mut String, c: char)
    ensures
        final(s)@ == old(s)@.push(c),
{
    s.push(c)
}

/// `t` with four spaces after each line break.
pub open spec fn indent_breaks(t: Seq<char>) -> Seq<char>
    decreases t.len(),
{
    if t.len() == 0 {
        Seq::empty()
    } else {
        indent_breaks(t.drop_last()) + if t.last() == '\n' { "\n    "@ } else { seq![t.last()] }
    }
}

/// Every line of `t` indented by four spaces.
pub open spec fn indent(t: Seq<char>) -> Seq<char> {
    "    "@ + indent_breaks(t)
}

/// Appends `t` with every line indented by four spaces.
pub fn push_indented(s: &mut String, t: &str)
    ensures
        final(s)@ == old(s)@ + indent(t@),
{
    s.append("    ");
    let ghost base = s@;
    let n = t.unicode_len();
    let mut i: usize = 0;
    while i < n
        invariant
            n == t@.len(),
            i <= n,
            base == old(s)@ + "    "@,
            s@ == base + indent_breaks(t@.take(i as int)),
        decreases n - i,
    {
        let c = t.get_char(i);
        assert(t@.take(i + 1).drop_last() =~= t@.take(i as int));
        if c == '\n' {
            s.append("\n    ");
        } else {
            push_char(s, c);
        }
        assert(s@ =~= base + indent_breaks(t@.take(i + 1)));
        i = i + 1;
    }
    assert(t@.take(n as int) =~= t@);
    assert(s@ =~= old(s)@ + indent(t@));
}

/// The characters of each string.
pub open spec fn strings_view(v: Seq<String>) -> Seq<Seq<char>> {
    v.map_values(|p: String| p@)
}

/// The strings of `parts` with `sep` between neighbours.
pub fn join_strings(parts: &Vec<String>, sep: &str) -> (r: String)
    ensures
        r@ == join(strings_view(parts@), sep@),
{
    let mut s = String::new();
    let mut i: usize = 0;
    while i < parts.len()
        invariant
            i <= parts.len(),
            s@ == join(strings_view(parts@.take(i as int)), sep@),
        decreases parts.len() - i,
    {
        proof {
            assert(strings_view(parts@.take(i + 1)) =~= strings_view(parts@.take(i as int)).push(parts@[i as int]@));
            lemma_join_push(strings_view(parts@.take(i as int)), parts@[i as int]@, sep@);
        }
        if i > 0 {
            s.append(sep);
        }
        s.append(parts[i].as_str());
        i = i + 1;
    }
    assert(parts@.take(i as int) =~= parts@);
    s
}

/// A fresh string holding `a` followed by `b`.
pub fn concat(a: &str, b: &str) -> (r: String)
    ensures
        r@ == a@ + b@,
{
    let mut s = String::from_str(a);
    s.append(b);
    s
}

/// Whether `names` holds a string with the characters of `n`.
pub fn contains_string(names: &Vec<String>, n: &String) -> (r: bool)
    ensures
        r == strings_view(names@).contains(n@),
{
    let mut i: usize = 0;
    while i < names.len()
        invariant
            i <= names.len(),
            forall|k: int| 0 <= k < i ==> names@[k]@ != n@,
        decreases names.len() - i,
    {
        if names[i] == *n {
            assert(strings_view(names@)[i as int] == n@);
            return true;
        }
        i = i + 1;
    }
    assert forall|k: int| 0 <= k < strings_view(names@).len() implies strings_view(names@)[k] != n@ by {
        assert(names@[k]@ != n@);
    }
    false
}

/// Appends copies of every string of `extra`.
pub fn extend_strings(v: &mut Vec<String>, extra: &Vec<String>)
    ensures
        strings_view(final(v)@) == strings_view(old(v)@) + strings_view(extra@),
{
    let mut i: usize = 0;
    while i < extra.len()
        invariant
            i <= extra.len(),
            strings_view(v@) == strings_view(old(v)@) + strings_view(extra@.take(i as int)),
        decreases extra.len() - i,
    {
        let ghost before = v@;
        let c = extra[i].clone();
        v.push(c);
        proof {
            assert(v@ =~= before.push(extra@[i as int]));
            assert(strings_view(v@) =~= strings_view(before).push(extra@[i as int]@));
            assert(strings_view(extra@.take(i + 1)) =~= strings_view(extra@.take(i as int)).push(extra@[i as int]@));
            assert(strings_view(v@) =~= strings_view(old(v)@) + strings_view(extra@.take(i + 1)));
        }
        i = i + 1;
    }
    assert(extra@.take(i as int) =~= extra@);
}

} // verus!
