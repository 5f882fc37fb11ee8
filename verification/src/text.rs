//! Character-sequence building blocks: decimal numerals, prefix and equality
//! tests on string slices, and the comma-separated join.

use vstd::prelude::*;
use vstd::std_specs::iter::IteratorSpec;
use vstd::string::*;

verus! {

/// The contents of a list of strings, one character sequence per string.
pub open spec fn texts(items: Seq<String>) -> Seq<Seq<char>> {
    Seq::new(items.len(), |i: int| items[i]@)
}

/// The character that writes the digit `d`.
pub open spec fn digit_char(d: nat) -> char
    recommends
        d < 10,
{
    seq!['0', '1', '2', '3', '4', '5', '6', '7', '8', '9'][d as int]
}

/// Whether `c` is one of the ten ASCII decimal digits.
pub open spec fn is_digit(c: char) -> bool {
    '0' <= c && c <= '9'
}

/// Whether the first digit of `s` stands at `at`.
pub open spec fn is_first_digit(s: Seq<char>, at: int) -> bool {
    &&& 0 <= at < s.len()
    &&& is_digit(s[at])
    &&& forall|j: int| 0 <= j < at ==> !is_digit(s[j])
}

/// The decimal numeral of `n`: no sign, no leading zero, `"0"` for zero.
pub open spec fn decimal(n: nat) -> Seq<char>
    decreases n,
{
    if n < 10 {
        seq![digit_char(n)]
    } else {
        decimal(n / 10).push(digit_char(n % 10))
    }
}

/// `s` up to its first `mark`, which is left out; all of `s` if it holds no
/// `mark`.
pub open spec fn before_first(s: Seq<char>, mark: char) -> Seq<char> {
    match s.index_of_first(mark) {
        Some(at) => s.take(at),
        None => s,
    }
}

/// Whether no element of `parts` is empty.
pub open spec fn all_filled(parts: Seq<Seq<char>>) -> bool {
    forall|i: int| 0 <= i < parts.len() ==> (#[trigger] parts[i]).len() > 0
}

/// `parts` written one after another with a single comma between neighbours.
pub open spec fn comma_join(parts: Seq<Seq<char>>) -> Seq<char>
    decreases parts.len(),
{
    if parts.len() == 0 {
        Seq::empty()
    } else if parts.len() == 1 {
        parts[0]
    } else {
        comma_join(parts.drop_last()) + seq![','] + parts.last()
    }
}

/// A decimal numeral is never empty and holds digits only.
pub proof fn lemma_decimal_digits(n: nat)
    ensures
        decimal(n).len() >= 1,
        forall|i: int| 0 <= i < decimal(n).len() ==> is_digit(#[trigger] decimal(n)[i]),
    decreases n,
{
    if n >= 10 {
        lemma_decimal_digits(n / 10);
    }
}

/// Cutting before the first `mark` gives back a head that holds no `mark`,
/// whatever follows the mark.
pub proof fn lemma_before_first_cut(head: Seq<char>, mark: char, tail: Seq<char>)
    requires
        !head.contains(mark),
    ensures
        before_first(head + seq![mark] + tail, mark) == head,
{
    let s = head + seq![mark] + tail;
    s.index_of_first_ensures(mark);
    assert(s[head.len() as int] == mark);
    let at = s.index_of_first(mark)->0;
    if at < head.len() {
        assert(head[at] == s[at]);
        assert(head.contains(mark));
    }
    assert(s.take(at) =~= head);
}

/// Cutting before a `mark` that does not occur changes nothing.
pub proof fn lemma_before_first_absent(s: Seq<char>, mark: char)
    requires
        !s.contains(mark),
    ensures
        before_first(s, mark) == s,
{
    s.index_of_first_ensures(mark);
}

/// Joining one more part appends it, after a comma unless it is the first.
pub proof fn lemma_comma_join_push(parts: Seq<Seq<char>>, part: Seq<char>)
    ensures
        comma_join(parts.push(part)) == (if parts.len() == 0 {
            part
        } else {
            comma_join(parts) + seq![','] + part
        }),
{
    assert(parts.push(part).drop_last() =~= parts);
}

/// A join of non-empty parts is empty only when there are no parts.
pub proof fn lemma_comma_join_empty(parts: Seq<Seq<char>>)
    requires
        all_filled(parts),
    ensures
        comma_join(parts).len() == 0 <==> parts.len() == 0,
{
    if parts.len() >= 2 {
        assert(comma_join(parts) == comma_join(parts.drop_last()) + seq![','] + parts.last());
    }
}

/// A join of non-empty parts begins as its first part begins and ends as its
/// last part ends: no comma is put before the first part or behind the last.
pub proof fn lemma_comma_join_ends(parts: Seq<Seq<char>>)
    requires
        parts.len() > 0,
        all_filled(parts),
    ensures
        comma_join(parts).len() > 0,
        comma_join(parts).first() == parts.first().first(),
        comma_join(parts).last() == parts.last().last(),
    decreases parts.len(),
{
    if parts.len() >= 2 {
        let front = parts.drop_last();
        lemma_comma_join_ends(front);
        assert(comma_join(parts) == comma_join(front) + seq![','] + parts.last());
    }
}

/// The one-character string of the digit `d`.
fn digit_str(d: u64) -> (s: &'static str)
    requires
        d < 10,
    ensures
        s@ == seq![digit_char(d as nat)],
{
    proof {
        reveal_strlit("0");
        reveal_strlit("1");
        reveal_strlit("2");
        reveal_strlit("3");
        reveal_strlit("4");
        reveal_strlit("5");
        reveal_strlit("6");
        reveal_strlit("7");
        reveal_strlit("8");
        reveal_strlit("9");
    }
    match d {
        0 => "0",
        1 => "1",
        2 => "2",
        3 => "3",
        4 => "4",
        5 => "5",
        6 => "6",
        7 => "7",
        8 => "8",
        _ => "9",
    }
}

/// Renders `n` in base ten.
pub fn decimal_string(n: u64) -> (s: String)
    ensures
        s@ == decimal(n as nat),
    decreases n,
{
    if n < 10 {
        String::from_str(digit_str(n))
    } else {
        let mut s = decimal_string(n / 10);
        s.append(digit_str(n % 10));
        s
    }
}

/// Tells whether `s` begins with `prefix`, character by character.
pub fn starts_with(s: &str, prefix: &str) -> (b: bool)
    ensures
        b == prefix@.is_prefix_of(s@),
{
    let mut rest = s.chars();
    for p in it: prefix.chars()
        invariant
            it.seq() == prefix@,
            rest.remaining() == s@.skip(it.index()),
            it.index() <= s@.len(),
            s@.take(it.index()) == prefix@.take(it.index()),
    {
        match rest.next() {
            None => {
                return false;
            },
            Some(c) => {
                if c != p {
                    return false;
                }
            },
        }
    }
    true
}

/// Tells whether two string slices hold the same characters.
pub fn same_text(a: &str, b: &str) -> (same: bool)
    ensures
        same == (a@ == b@),
{
    let same = starts_with(a, b) && starts_with(b, a);
    proof {
        if same {
            assert(a@ =~= b@);
        }
    }
    same
}

/// Position of the first ASCII decimal digit of `s`, if it has one.
pub fn find_digit(s: &str) -> (at: Option<usize>)
    ensures
        at matches Some(i) ==> is_first_digit(s@, i as int),
        at is None ==> forall|j: int| 0 <= j < s@.len() ==> !is_digit(s@[j]),
{
    // The character count bounds the running index.
    let n: usize = s.unicode_len();
    let mut i: usize = 0;
    for c in it: s.chars()
        invariant
            it.seq() == s@,
            i == it.index(),
            n == s@.len(),
            forall|j: int| 0 <= j < i ==> !is_digit(s@[j]),
    {
        if '0' <= c && c <= '9' {
            return Some(i);
        }
        i = i + 1;
    }
    None
}

} // verus!
