//! Decimal rendering of counts.
use vstd::prelude::*;

verus! {

/// The character of the decimal digit `d`.
pub open spec fn digit_char(d: nat) -> char {
    (48 + d) as char
}

/// The decimal digits of `n`, most significant first, without leading zeros.
pub open spec fn decimal_digits(n: nat) -> Seq<char>
    decreases n,
{
    if n < 10 {
        seq![digit_char(n)]
    } else {
        decimal_digits(n / 10).push(digit_char(n % 10))
    }
}

/// The text of one decimal digit.
fn digit_text(d: usize) -> (r: &'static str)
    requires
        d < 10,
    ensures
        r@ == seq![digit_char(d as nat)],
{
    proof {
        reveal_strlit("0");
        reveal_strlit("1");
        reveal_strlit("2");
        reveal_strlit("3");
        reveal_strlit("4");
        reveal_strlit("5");
        reveal_strlit("6");
        reveal_strlit("7");
        reveal_strlit("8");
        reveal_strlit("9");
    }
    if d == 0 {
        "0"
    } else if d == 1 {
        "1"
    } else if d == 2 {
        "2"
    } else if d == 3 {
        "3"
    } else if d == 4 {
        "4"
    } else if d == 5 {
        "5"
    } else if d == 6 {
        "6"
    } else if d == 7 {
        "7"
    } else if d == 8 {
        "8"
    } else {
        "9"
    }
}

/// `n` written in decimal.
pub fn decimal(n: usize) -> (r: String)
    ensures
        r@ == decimal_digits(n as nat),
    decreases n,
{
    if n < 10 {
        String::from_str(digit_text(n))
    } else {
        let mut s = decimal(n / 10);
        s.append(digit_text(n % 10));
        s
    }
}

/// Whether `t` occurs in `s` as a contiguous piece.
pub open spec fn contains_text(s: Seq<char>, t: Seq<char>) -> bool {
    exists|i: int| 0 <= i && i + t.len() <= s.len() && #[trigger] s.subrange(i, i + t.len()) == t
}

/// Whether `s` begins with `p`.
pub open spec fn begins_with(s: Seq<char>, p: Seq<char>) -> bool {
    p.len() <= s.len() && s.subrange(0, p.len() as int) == p
}

/// Whether `s` ends with `p`.
pub open spec fn ends_with(s: Seq<char>, p: Seq<char>) -> bool {
    p.len() <= s.len() && s.subrange(s.len() - p.len(), s.len() as int) == p
}

/// A text ends with its last piece, and begins with its first.
pub proof fn lemma_split_ends(x: Seq<char>, t: Seq<char>)
    ensures
        ends_with(x + t, t),
        begins_with(x + t, x),
{
    assert((x + t).subrange(x.len() as int, (x + t).len() as int) =~= t);
    assert((x + t).subrange(0, x.len() as int) =~= x);
}

/// A text ends with its last piece.
pub proof fn lemma_contains_last(x: Seq<char>, t: Seq<char>)
    ensures
        contains_text(x + t, t),
{
    assert((x + t).subrange(x.len() as int, (x.len() + t.len()) as int) =~= t);
}

/// Appending keeps what a text contains.
pub proof fn lemma_contains_extend(s: Seq<char>, t: Seq<char>, u: Seq<char>)
    requires
        contains_text(s, t),
    ensures
        contains_text(s + u, t),
{
    let i = choose|i: int| 0 <= i && i + t.len() <= s.len() && #[trigger] s.subrange(i, i + t.len()) == t;
    assert((s + u).subrange(i, i + t.len()) =~= s.subrange(i, i + t.len()));
}

/// Appending keeps how a text begins.
pub proof fn lemma_begins_extend(s: Seq<char>, p: Seq<char>, u: Seq<char>)
    requires
        begins_with(s, p),
    ensures
        begins_with(s + u, p),
{
    assert((s + u).subrange(0, p.len() as int) =~= s.subrange(0, p.len() as int));
}

/// A piece of a text is contained in any text that contains the whole.
pub proof fn lemma_contains_trans(s: Seq<char>, t: Seq<char>, u: Seq<char>)
    requires
        contains_text(s, t),
        contains_text(t, u),
    ensures
        contains_text(s, u),
{
    let i = choose|i: int| 0 <= i && i + t.len() <= s.len() && #[trigger] s.subrange(i, i + t.len()) == t;
    let j = choose|j: int| 0 <= j && j + u.len() <= t.len() && #[trigger] t.subrange(j, j + u.len()) == u;
    assert(s.subrange(i + j, i + j + u.len()) =~= t.subrange(j, j + u.len()));
}

/// A text begins with, and so contains, its first piece.
pub proof fn lemma_contains_first(t: Seq<char>, x: Seq<char>)
    ensures
        contains_text(t + x, t),
        begins_with(t + x, t),
{
    assert((t + x).subrange(0, t.len() as int) =~= t);
    let i: int = 0;
    assert((t + x).subrange(i, i + t.len()) == t);
}

/// The pieces written one after another.
pub open spec fn concat_all(parts: Seq<Seq<char>>) -> Seq<char>
    decreases parts.len(),
{
    if parts.len() == 0 {
        seq![]
    } else {
        concat_all(parts.drop_last()) + parts.last()
    }
}

/// The pieces written one after another contain each piece and begin with
/// the first.
pub proof fn lemma_concat_contains_parts(parts: Seq<Seq<char>>)
    ensures
        forall|i: int| 0 <= i < parts.len() ==> contains_text(concat_all(parts), #[trigger] parts[i]),
        parts.len() > 0 ==> begins_with(concat_all(parts), parts[0]),
    decreases parts.len(),
{
    if parts.len() > 0 {
        let init = parts.drop_last();
        lemma_concat_contains_parts(init);
        lemma_contains_last(concat_all(init), parts.last());
        assert forall|i: int| 0 <= i < parts.len() implies contains_text(concat_all(parts), #[trigger] parts[i]) by {
            if i < parts.len() - 1 {
                assert(init[i] == parts[i]);
                lemma_contains_extend(concat_all(init), parts[i], parts.last());
            }
        }
        if init.len() > 0 {
            assert(init[0] == parts[0]);
            lemma_begins_extend(concat_all(init), parts[0], parts.last());
        } else {
            assert(concat_all(init) =~= Seq::<char>::empty());
            assert(concat_all(parts) =~= parts[0]);
            assert(concat_all(parts).subrange(0, parts[0].len() as int) =~= parts[0]);
        }
    }
}

/// The number a text of decimal digits denotes.
pub open spec fn digits_value(s: Seq<char>) -> int
    decreases s.len(),
{
    if s.len() == 0 {
        0
    } else {
        digits_value(s.drop_last()) * 10 + (s.last() as int - 48)
    }
}

/// Whether every character of `s` is a decimal digit.
pub open spec fn all_digits(s: Seq<char>) -> bool {
    forall|i: int| 0 <= i < s.len() ==> 48 <= #[trigger] (s[i] as int) <= 57
}

/// A digit's character has the digit's code above that of `0`.
proof fn lemma_digit_code(d: nat)
    requires
        d < 10,
    ensures
        digit_char(d) as int == 48 + d,
{
}

/// The decimal text of `n` consists of digits, has no leading zero, and
/// denotes `n`.
pub proof fn law_decimal_denotes_its_number(n: nat)
    ensures
        decimal_digits(n).len() >= 1,
        all_digits(decimal_digits(n)),
        digits_value(decimal_digits(n)) == n,
        n >= 10 ==> decimal_digits(n)[0] != '0',
    decreases n,
{
    if n < 10 {
        lemma_digit_code(n);
        let d = decimal_digits(n);
        assert(d == seq![digit_char(n)]);
        assert(d.drop_last() =~= Seq::<char>::empty());
        assert(digits_value(d.drop_last()) == 0);
        assert(d.last() as int == 48 + n);
        assert(digits_value(d) == n);
    } else {
        law_decimal_denotes_its_number(n / 10);
        let prev = decimal_digits(n / 10);
        let d = decimal_digits(n);
        lemma_digit_code(n % 10);
        assert(d == prev.push(digit_char(n % 10)));
        assert(d.drop_last() =~= prev);
        assert(d.last() == digit_char(n % 10));
        assert(d[0] == prev[0]);
        if n / 10 < 10 {
            lemma_digit_code(n / 10);
            assert(prev == seq![digit_char(n / 10)]);
            assert(n / 10 >= 1);
            assert(prev[0] as int != '0' as int);
        }
        assert(forall|i: int| 0 <= i < prev.len() ==> d[i] == prev[i]);
        assert(digits_value(prev) == n / 10);
        assert(digits_value(d) == digits_value(d.drop_last()) * 10 + (d.last() as int - 48));
        assert(digits_value(d) == digits_value(prev) * 10 + (n % 10));
        assert((n / 10) * 10 + n % 10 == n) by (nonlinear_arith);
    }
}

} // verus!
