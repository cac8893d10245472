//! Text helpers whose results are stated over sequences of characters.

use vstd::prelude::*;

verus! {

/// The views of a sequence of values.
pub open spec fn views<T: View>(items: Seq<T>) -> Seq<T::V> {
    items.map_values(|item: T| item@)
}

/// The decimal digit for a value below ten.
pub open spec fn digit(n: nat) -> char {
    if n == 0 {
        '0'
    } else if n == 1 {
        '1'
    } else if n == 2 {
        '2'
    } else if n == 3 {
        '3'
    } else if n == 4 {
        '4'
    } else if n == 5 {
        '5'
    } else if n == 6 {
        '6'
    } else if n == 7 {
        '7'
    } else if n == 8 {
        '8'
    } else {
        '9'
    }
}

/// The decimal notation of a natural number, without leading zeros.
pub open spec fn decimal(n: nat) -> Seq<char>
    decreases n,
{
    if n < 10 {
        seq![digit(n)]
    } else {
        decimal(n / 10).push(digit(n % 10))
    }
}

/// Whether two texts hold the same characters.
pub fn same_text(a: &str, b: &str) -> (r: bool)
    ensures
        r == (a@ == b@),
{
    a.to_owned() == b.to_owned()
}

fn digit_text(n: u64) -> (r: &'static str)
    requires
        n < 10,
    ensures
        r@ == seq![digit(n as nat)],
{
    proof {
        reveal_strlit("0");
        reveal_strlit("1");
        reveal_strlit("2");
        reveal_strlit("3");
        reveal_strlit("4");
        reveal_strlit("5");
        reveal_strlit("6");
        reveal_strlit("7");
        reveal_strlit("8");
        reveal_strlit("9");
    }
    if n == 0 {
        "0"
    } else if n == 1 {
        "1"
    } else if n == 2 {
        "2"
    } else if n == 3 {
        "3"
    } else if n == 4 {
        "4"
    } else if n == 5 {
        "5"
    } else if n == 6 {
        "6"
    } else if n == 7 {
        "7"
    } else if n == 8 {
        "8"
    } else {
        "9"
    }
}

/// The decimal notation of `n`.
pub fn decimal_text(n: u64) -> (r: String)
    ensures
        r@ == decimal(n as nat),
    decreases n,
{
    if n < 10 {
        digit_text(n).to_owned()
    } else {
        let head = decimal_text(n / 10);
        let r = head.concat(digit_text(n % 10));
        assert(r@ =~= decimal(n as nat));
        r
    }
}

/// `a` followed by `b`.
pub fn joined(a: &str, b: &str) -> (r: String)
    ensures
        r@ == a@ + b@,
{
    a.to_owned().concat(b)
}

/// `a`, `b` and `c` one after the other.
pub fn joined3(a: &str, b: &str, c: &str) -> (r: String)
    ensures
        r@ == a@ + b@ + c@,
{
    a.to_owned().concat(b).concat(c)
}

/// What follows a prefix of a text: nothing if the text does not start with it.
pub open spec fn rest_after(text: Seq<char>, prefix: Seq<char>) -> Option<Seq<char>> {
    if prefix.len() <= text.len() && text.take(prefix.len() as int) == prefix {
        Some(text.skip(prefix.len() as int))
    } else {
        None
    }
}

/// What follows a prefix of a text.
pub fn after_prefix<'a>(text: &'a str, prefix: &str) -> (r: Option<&'a str>)
    ensures
        r is Some <==> rest_after(text@, prefix@) is Some,
        r is Some ==> rest_after(text@, prefix@) == Some(r->0@),
{
    let whole = text.unicode_len();
    let start = prefix.unicode_len();
    if start <= whole && same_text(text.substring_char(0, start), prefix) {
        let rest = text.substring_char(start, whole);
        assert(text@.subrange(0, start as int) =~= text@.take(start as int));
        assert(rest@ =~= text@.skip(start as int));
        Some(rest)
    } else {
        assert(start <= whole ==> text@.subrange(0, start as int) =~= text@.take(start as int));
        None
    }
}

/// A text without the leading run of a character.
pub open spec fn trimmed_start(text: Seq<char>, c: char) -> Seq<char>
    decreases text.len(),
{
    if text.len() > 0 && text[0] == c {
        trimmed_start(text.drop_first(), c)
    } else {
        text
    }
}

/// A text without the trailing run of a character.
pub open spec fn trimmed_end(text: Seq<char>, c: char) -> Seq<char>
    decreases text.len(),
{
    if text.len() > 0 && text.last() == c {
        trimmed_end(text.drop_last(), c)
    } else {
        text
    }
}

/// A text without the leading run of a character.
pub fn trim_start<'a>(text: &'a str, c: char) -> (r: &'a str)
    ensures
        r@ == trimmed_start(text@, c),
{
    let end = text.unicode_len();
    let mut start: usize = 0;
    assert(text@.skip(0) =~= text@);
    while start < end && text.get_char(start) == c
        invariant
            start <= end,
            end == text@.len(),
            trimmed_start(text@, c) == trimmed_start(text@.skip(start as int), c),
        decreases end - start,
    {
        assert(text@.skip(start as int).drop_first() =~= text@.skip(start + 1));
        start = start + 1;
    }
    let r = text.substring_char(start, end);
    assert(r@ =~= text@.skip(start as int));
    r
}

/// A text without the trailing run of a character.
pub fn trim_end<'a>(text: &'a str, c: char) -> (r: &'a str)
    ensures
        r@ == trimmed_end(text@, c),
{
    let mut end: usize = text.unicode_len();
    assert(text@.take(end as int) =~= text@);
    while end > 0 && text.get_char(end - 1) == c
        invariant
            end <= text@.len(),
            trimmed_end(text@, c) == trimmed_end(text@.take(end as int), c),
        decreases end,
    {
        assert(text@.take(end as int).drop_last() =~= text@.take(end - 1));
        end = end - 1;
    }
    let r = text.substring_char(0, end);
    assert(r@ =~= text@.take(end as int));
    r
}

/// A copy of every text in a list.
pub fn copied_texts(items: &Vec<String>) -> (r: Vec<String>)
    ensures
        r@ == items@,
{
    let r = items.clone();
    assert(r@ =~= items@);
    r
}

/// Whether a list holds a text.
pub fn holds_text(items: &Vec<String>, text: &str) -> (r: bool)
    ensures
        r == views(items@).contains(text@),
{
    let mut i: usize = 0;
    while i < items.len()
        invariant
            i <= items.len(),
            forall|j: int| 0 <= j < i ==> views(items@)[j] != text@,
        decreases items.len() - i,
    {
        if same_text(items[i].as_str(), text) {
            assert(views(items@)[i as int] == text@);
            return true;
        }
        i = i + 1;
    }
    false
}

/// The decimal notation of a number has one more digit than that of its tenth part, and numbers
/// below ten have their own digit.
pub proof fn law_numbers_are_written_digit_by_digit(n: nat)
    ensures
        n < 10 ==> decimal(n) == seq![digit(n)],
        decimal(10 * n + 1) == if n == 0 {
            seq!['1']
        } else {
            decimal(n).push('1')
        },
        n > 0 ==> decimal(10 * n) == decimal(n).push('0'),
        n < 10 ==> digit(n) as nat == '0' as nat + n,
{
    assert((10 * n + 1) / 10 == n && (10 * n + 1) % 10 == 1);
    assert((10 * n) / 10 == n && (10 * n) % 10 == 0);
}

/// A text that starts with a prefix has the rest behind it, and no other text has one.
pub proof fn law_what_follows_a_prefix_is_the_rest(
    text: Seq<char>,
    prefix: Seq<char>,
    rest: Seq<char>,
)
    ensures
        rest_after(prefix + rest, prefix) == Some(rest),
        rest_after(text, prefix) matches Some(found) ==> text == prefix + found,
{
    assert((prefix + rest).take(prefix.len() as int) =~= prefix);
    assert((prefix + rest).skip(prefix.len() as int) =~= rest);
    if prefix.len() <= text.len() {
        assert(text =~= text.take(prefix.len() as int) + text.skip(prefix.len() as int));
    }
}

/// Trimming takes off a whole run of the character at that end and nothing else: one more of
/// them makes no difference, and a text without it there stays as it is.
pub proof fn law_trimming_takes_off_a_run(text: Seq<char>, c: char)
    ensures
        trimmed_start(seq![c] + text, c) == trimmed_start(text, c),
        trimmed_end(text.push(c), c) == trimmed_end(text, c),
        text.len() == 0 || text[0] != c ==> trimmed_start(text, c) == text,
        text.len() == 0 || text.last() != c ==> trimmed_end(text, c) == text,
{
    assert((seq![c] + text).drop_first() =~= text);
    assert(text.push(c).drop_last() =~= text);
}

} // verus!
