//! Building the messages that denials and errors carry.
use vstd::prelude::*;

verus! {

/// The items of `list` separated by `sep`.
pub open spec fn join(list: Seq<Seq<char>>, sep: Seq<char>) -> Seq<char>
    decreases list.len(),
{
    if list.len() == 0 {
        Seq::empty()
    } else if list.len() == 1 {
        list[0]
    } else {
        join(list.drop_last(), sep) + sep + list.last()
    }
}

/// The views of a list of strings.
pub open spec fn views(list: Seq<String>) -> Seq<Seq<char>> {
    list.map_values(|s: String| s@)
}

/// The decimal digit for `d` in `0..10`.
pub open spec fn digit_char(d: int) -> char {
    if d == 0 { '0' } else if d == 1 { '1' } else if d == 2 { '2' } else if d == 3 { '3' }
    else if d == 4 { '4' } else if d == 5 { '5' } else if d == 6 { '6' } else if d == 7 { '7' }
    else if d == 8 { '8' } else { '9' }
}

/// The decimal text of a natural number, without leading zeros.
pub open spec fn nat_decimal(n: nat) -> Seq<char>
    decreases n,
{
    if n < 10 {
        seq![digit_char(n as int)]
    } else {
        nat_decimal(n / 10).push(digit_char((n % 10) as int))
    }
}

fn digit_exec(d: u64) -> (c: char)
    requires
        d < 10,
    ensures
        c == digit_char(d as int),
{
    if d == 0 { '0' } else if d == 1 { '1' } else if d == 2 { '2' } else if d == 3 { '3' }
    else if d == 4 { '4' } else if d == 5 { '5' } else if d == 6 { '6' } else if d == 7 { '7' }
    else if d == 8 { '8' } else { '9' }
}

fn write_decimal(out: &mut String, n: u64)
    ensures
        final(out)@ == old(out)@ + nat_decimal(n as nat),
    decreases n,
{
    if n >= 10 {
        write_decimal(out, n / 10);
    }
    crate::ext::push_char(out, digit_exec(n % 10));
    assert(nat_decimal(n as nat) == if n < 10 { seq![digit_char(n as int)] } else { nat_decimal((n / 10) as nat).push(digit_char((n % 10) as int)) });
}

/// The fraction digits of `r` thousandths (`0 < r < 1000`), without trailing zeros.
pub open spec fn thousandths_digits(r: nat) -> Seq<char> {
    if r % 100 == 0 {
        seq![digit_char((r / 100) as int)]
    } else if r % 10 == 0 {
        seq![digit_char((r / 100) as int), digit_char(((r / 10) % 10) as int)]
    } else {
        seq![digit_char((r / 100) as int), digit_char(((r / 10) % 10) as int), digit_char((r % 10) as int)]
    }
}

/// The decimal text of `m` thousandths: the whole part, then a point and the fraction digits
/// without trailing zeros when the fraction is not zero (as `Display` writes a float).
pub open spec fn nat_milli_decimal(m: nat) -> Seq<char> {
    if m % 1000 == 0 {
        nat_decimal(m / 1000)
    } else {
        nat_decimal(m / 1000) + seq!['.'] + thousandths_digits(m % 1000)
    }
}

/// The decimal text of `n` thousandths, with a leading `-` when it is negative.
pub open spec fn milli_decimal(n: int) -> Seq<char> {
    if n < 0 {
        seq!['-'] + nat_milli_decimal((-n) as nat)
    } else {
        nat_milli_decimal(n as nat)
    }
}

fn write_milli_decimal(out: &mut String, m: u64)
    ensures
        final(out)@ == old(out)@ + nat_milli_decimal(m as nat),
{
    let ghost start = out@;
    write_decimal(out, m / 1000);
    let r = m % 1000;
    if r != 0 {
        crate::ext::push_char(out, '.');
        crate::ext::push_char(out, digit_exec(r / 100));
        if r % 100 != 0 {
            crate::ext::push_char(out, digit_exec((r / 10) % 10));
            if r % 10 != 0 {
                crate::ext::push_char(out, digit_exec(r % 10));
            }
        }
        assert(out@ =~= start + nat_decimal((m / 1000) as nat) + seq!['.'] + thousandths_digits(r as nat));
    }
}

/// The decimal text of `n` thousandths, as `Display` writes the float `n / 1000`.
pub fn milli_decimal_text(n: i64) -> (s: String)
    ensures
        s@ == milli_decimal(n as int),
{
    let mut out = String::new();
    if n < 0 {
        crate::ext::push_char(&mut out, '-');
        let magnitude: u64 = (0i128 - n as i128) as u64;
        write_milli_decimal(&mut out, magnitude);
    } else {
        write_milli_decimal(&mut out, n as u64);
    }
    out
}

/// Whether two strings have the same characters.
pub fn str_eq(a: &str, b: &str) -> (r: bool)
    ensures
        r == (a@ == b@),
{
    a.to_owned() == b.to_owned()
}

/// `a` followed by `b`.
pub fn cat(a: &str, b: &str) -> (r: String)
    ensures
        r@ == a@ + b@,
{
    let mut s = a.to_owned();
    s.append(b);
    s
}

/// `a`, `b` and `c` in a row.
pub fn cat3(a: &str, b: &str, c: &str) -> (r: String)
    ensures
        r@ == a@ + b@ + c@,
{
    let mut s = a.to_owned();
    s.append(b);
    s.append(c);
    s
}

/// The strings of `list` separated by `sep`.
pub fn join_strings(list: &Vec<String>, sep: &str) -> (r: String)
    ensures
        r@ == join(views(list@), sep@),
{
    let mut out = String::new();
    let mut i: usize = 0;
    while i < list.len()
        invariant
            i <= list@.len(),
            out@ == join(views(list@).take(i as int), sep@),
        decreases list@.len() - i,
    {
        assert(views(list@).take(i + 1).drop_last() == views(list@).take(i as int));
        if i != 0 {
            out.append(sep);
        }
        out.append(list[i].as_str());
        assert(views(list@).take(i + 1).last() == list@[i as int]@);
        i += 1;
    }
    assert(views(list@).take(list@.len() as int) == views(list@));
    out
}

/// The position of the first `c` in `s`.
pub open spec fn find_char(s: Seq<char>, c: char) -> Option<int>
    decreases s.len(),
{
    if s.len() == 0 {
        None
    } else if s[0] == c {
        Some(0)
    } else {
        match find_char(s.drop_first(), c) {
            Some(i) => Some(i + 1),
            None => None,
        }
    }
}

/// The text before the first `c` and the text after it, when `s` has a `c`.
pub open spec fn split_once_spec(s: Seq<char>, c: char) -> Option<(Seq<char>, Seq<char>)> {
    match find_char(s, c) {
        Some(i) => Some((s.take(i), s.skip(i + 1))),
        None => None,
    }
}

/// The pieces of `s` between the occurrences of `c`, as `str::split` gives them.
pub open spec fn split_all(s: Seq<char>, c: char) -> Seq<Seq<char>>
    decreases s.len(),
{
    match find_char(s, c) {
        None => seq![s],
        Some(i) => {
            proof {
                lemma_find_char(s, c);
            }
            seq![s.take(i)] + split_all(s.skip(i + 1), c)
        },
    }
}

/// Splitting gives at least one piece; exactly one when there is nothing to split at, and
/// otherwise the part before the first `c` followed by the pieces of what comes after it.
pub proof fn lemma_split_all_step(s: Seq<char>, c: char)
    ensures
        split_all(s, c).len() >= 1,
        split_once_spec(s, c) is None ==> split_all(s, c) == seq![s],
        split_once_spec(s, c) matches Some((a, b)) ==> split_all(s, c) == seq![a] + split_all(b, c)
            && split_all(s, c).len() == split_all(b, c).len() + 1,
    decreases s.len(),
{
    lemma_find_char(s, c);
    if let Some(i) = find_char(s, c) {
        lemma_split_all_step(s.skip(i + 1), c);
    }
}

/// `find_char` finds the first occurrence.
pub proof fn lemma_find_char(s: Seq<char>, c: char)
    ensures
        match find_char(s, c) {
            Some(i) => 0 <= i < s.len() && s[i] == c && forall|j: int| 0 <= j < i ==> s[j] != c,
            None => forall|j: int| 0 <= j < s.len() ==> s[j] != c,
        },
    decreases s.len(),
{
    if s.len() > 0 && s[0] != c {
        lemma_find_char(s.drop_first(), c);
        match find_char(s.drop_first(), c) {
            Some(i) => {
                assert forall|j: int| 0 <= j < i + 1 implies s[j] != c by {
                    if j > 0 {
                        assert(s[j] == s.drop_first()[j - 1]);
                    }
                }
            },
            None => {
                assert forall|j: int| 0 <= j < s.len() implies s[j] != c by {
                    if j > 0 {
                        assert(s[j] == s.drop_first()[j - 1]);
                    }
                }
            },
        }
    }
}

/// The first `c` in `s` is at `i` when `s[i]` is `c` and no earlier character is.
pub proof fn lemma_find_char_at(s: Seq<char>, c: char, i: int)
    requires
        0 <= i < s.len(),
        s[i] == c,
        forall|j: int| 0 <= j < i ==> s[j] != c,
    ensures
        find_char(s, c) == Some(i),
{
    lemma_find_char(s, c);
}

/// A string without `c` has no first `c`.
pub proof fn lemma_find_char_none(s: Seq<char>, c: char)
    requires
        forall|j: int| 0 <= j < s.len() ==> s[j] != c,
    ensures
        find_char(s, c) is None,
{
    lemma_find_char(s, c);
}

/// The position of the first `c` in `s`, scanning from the front.
pub fn find_char_exec(s: &str, c: char) -> (r: Option<usize>)
    ensures
        match find_char(s@, c) {
            Some(i) => r == Some(i as usize),
            None => r is None,
        },
{
    let n = s.unicode_len();
    let mut i: usize = 0;
    while i < n
        invariant
            n == s@.len(),
            i <= n,
            forall|j: int| 0 <= j < i ==> s@[j] != c,
        decreases n - i,
    {
        if s.get_char(i) == c {
            proof {
                lemma_find_char_at(s@, c, i as int);
            }
            return Some(i);
        }
        i += 1;
    }
    proof {
        lemma_find_char_none(s@, c);
    }
    None
}

/// Splits `s` at its first `c`.
pub fn split_once(s: &str, c: char) -> (r: Option<(String, String)>)
    ensures
        match split_once_spec(s@, c) {
            Some((a, b)) => r matches Some(p) && p.0@ == a && p.1@ == b,
            None => r is None,
        },
{
    match find_char_exec(s, c) {
        Some(i) => {
            proof {
                lemma_find_char(s@, c);
            }
            let n = s.unicode_len();
            let before = s.substring_char(0, i).to_owned();
            let after = s.substring_char(i + 1, n).to_owned();
            assert(s@.subrange(0, i as int) == s@.take(i as int));
            assert(s@.subrange(i + 1, n as int) == s@.skip(i + 1));
            Some((before, after))
        },
        None => None,
    }
}

/// Whether `s` begins with `prefix`.
pub fn starts_with(s: &str, prefix: &str) -> (r: bool)
    ensures
        r == (prefix@.len() <= s@.len() && s@.take(prefix@.len() as int) == prefix@),
{
    let n = s.unicode_len();
    let m = prefix.unicode_len();
    if m > n {
        return false;
    }
    let mut i: usize = 0;
    while i < m
        invariant
            n == s@.len(),
            m == prefix@.len(),
            m <= n,
            i <= m,
            s@.take(i as int) == prefix@.take(i as int),
        decreases m - i,
    {
        if s.get_char(i) != prefix.get_char(i) {
            assert(s@.take(m as int)[i as int] != prefix@[i as int]);
            return false;
        }
        assert(s@.take(i + 1) =~= s@.take(i as int).push(s@[i as int]));
        assert(prefix@.take(i + 1) =~= prefix@.take(i as int).push(prefix@[i as int]));
        i += 1;
    }
    assert(prefix@.take(m as int) =~= prefix@);
    true
}

} // verus!
