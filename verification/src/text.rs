//! Character-level helpers shared by the rest of the library: reading a
//! string as characters, comparing texts in code-point order, and writing
//! numbers in decimal.
use vstd::prelude::*;

verus! {

/// Three-way outcome of comparing two values.
#[derive(Debug, Clone, Copy, PartialEq, Eq, Structural)]
pub enum TextOrder {
    Less,
    Equal,
    Greater,
}

/// The characters of `s`, in order.
pub fn chars_of(s: &str) -> (out: Vec<char>)
    ensures
        out@ == s@,
{
    let n = s.unicode_len();
    let mut out: Vec<char> = Vec::new();
    let mut i: usize = 0;
    while i < n
        invariant
            n == s@.len(),
            i <= n,
            out@ == s@.subrange(0, i as int),
        decreases n - i,
    {
        let c = s.get_char(i);
        out.push(c);
        i = i + 1;
        assert(out@ =~= s@.subrange(0, i as int));
    }
    assert(out@ =~= s@);
    out
}


/// The rank of a character in a text order: its code point, except that
/// for paths with `separator` as their main separator, `/` and `separator`
/// rank below every other character.
pub open spec fn char_rank(c: char, separator: Option<char>) -> int {
    match separator {
        Some(s) => if c == '/' || c == s { -1 } else { c as int },
        None => c as int,
    }
}

/// Ranks tell characters apart when `/` is the only separator.
pub open spec fn ranks_distinct(separator: Option<char>) -> bool {
    separator is None || separator == Some('/')
}

/// Only separators rank below zero, and equal ranks come from equal
/// characters or from two separators.
pub proof fn lemma_char_rank(x: char, y: char, separator: Option<char>)
    ensures
        char_rank(x, separator) == char_rank(y, separator) && ranks_distinct(separator) ==> x == y,
        char_rank(x, separator) == char_rank(y, separator) ==> x == y || char_rank(x, separator) < 0,
        char_rank(x, separator) >= -1,
{
    assert(x as int >= 0);
    assert(y as int >= 0);
}

/// Compares two texts character by character by rank, a shorter text that
/// is a prefix of the other coming first: `-1` when `a` sorts before `b`,
/// `0` when they tie, `1` when `a` sorts after `b`.
pub open spec fn text_order(a: Seq<char>, b: Seq<char>, separator: Option<char>) -> int
    decreases a.len(),
{
    if a.len() == 0 {
        if b.len() == 0 { 0 } else { -1 }
    } else if b.len() == 0 {
        1
    } else if char_rank(a[0], separator) < char_rank(b[0], separator) {
        -1
    } else if char_rank(b[0], separator) < char_rank(a[0], separator) {
        1
    } else {
        text_order(a.drop_first(), b.drop_first(), separator)
    }
}

/// The order of texts by code point.
pub open spec fn text_compare(a: Seq<char>, b: Seq<char>) -> int {
    text_order(a, b, None)
}

/// The order of paths by their parts, on a platform whose main separator
/// is `separator`: the text order with `/` and `separator` below every other
/// character. For paths without empty or `.` parts this is the order of
/// their components.
pub open spec fn path_text_compare(a: Seq<char>, b: Seq<char>, separator: char) -> int {
    text_order(a, b, Some(separator))
}

/// The order is antisymmetric, equal texts tie, and when `/` is the only
/// separator only equal texts tie.
pub proof fn lemma_text_order_antisymmetric(a: Seq<char>, b: Seq<char>, separator: Option<char>)
    ensures
        text_order(a, b, separator) == -text_order(b, a, separator),
        -1 <= text_order(a, b, separator) <= 1,
        a == b ==> text_order(a, b, separator) == 0,
        ranks_distinct(separator) ==> (text_order(a, b, separator) == 0 <==> a == b),
    decreases a.len(),
{
    if a.len() > 0 && b.len() > 0 {
        lemma_char_rank(a[0], b[0], separator);
        lemma_text_order_antisymmetric(a.drop_first(), b.drop_first(), separator);
        if a.drop_first() == b.drop_first() && a[0] == b[0] {
            assert(a =~= seq![a[0]] + a.drop_first());
            assert(b =~= seq![b[0]] + b.drop_first());
        }
    }
    if a.len() == 0 && b.len() == 0 {
        assert(a =~= b);
    }
}

/// The order "not after" is transitive.
pub proof fn lemma_text_order_transitive(a: Seq<char>, b: Seq<char>, c: Seq<char>, separator: Option<char>)
    requires
        text_order(a, b, separator) <= 0,
        text_order(b, c, separator) <= 0,
    ensures
        text_order(a, c, separator) <= 0,
        text_order(a, b, separator) < 0 || text_order(b, c, separator) < 0 ==> text_order(a, c, separator) < 0,
    decreases a.len(),
{
    lemma_text_order_antisymmetric(a, b, separator);
    lemma_text_order_antisymmetric(b, c, separator);
    lemma_text_order_antisymmetric(a, c, separator);
    if a.len() > 0 && b.len() > 0 && c.len() > 0 {
        if char_rank(a[0], separator) == char_rank(b[0], separator) && char_rank(b[0], separator) == char_rank(
            c[0],
            separator,
        ) {
            lemma_text_order_transitive(a.drop_first(), b.drop_first(), c.drop_first(), separator);
        }
    }
}

fn is_separator(c: char, separator: Option<char>) -> (is_sep: bool)
    ensures
        is_sep <==> char_rank(c, separator) < 0,
{
    proof {
        assert(c as int >= 0);
    }
    match separator {
        Some(s) => c == '/' || c == s,
        None => false,
    }
}

/// Compares the texts `a` and `b` as `text_order` does.
pub fn compare_chars(a: &Vec<char>, b: &Vec<char>, separator: Option<char>) -> (r: TextOrder)
    ensures
        r == TextOrder::Less <==> text_order(a@, b@, separator) < 0,
        r == TextOrder::Equal <==> text_order(a@, b@, separator) == 0,
        r == TextOrder::Greater <==> text_order(a@, b@, separator) > 0,
{
    proof {
        lemma_text_order_antisymmetric(a@, b@, separator);
    }
    let mut i: usize = 0;
    assert(a@.skip(0) =~= a@);
    assert(b@.skip(0) =~= b@);
    while i < a.len() && i < b.len()
        invariant
            i <= a.len(),
            i <= b.len(),
            text_order(a@, b@, separator) == text_order(a@.skip(i as int), b@.skip(i as int), separator),
            -1 <= text_order(a@, b@, separator) <= 1,
        decreases a.len() - i,
    {
        let x = a[i];
        let y = b[i];
        proof {
            lemma_char_rank(x, y, separator);
            lemma_char_rank(y, x, separator);
        }
        let x_sep = is_separator(x, separator);
        let y_sep = is_separator(y, separator);
        if x_sep && !y_sep {
            return TextOrder::Less;
        }
        if y_sep && !x_sep {
            return TextOrder::Greater;
        }
        if !x_sep && x != y {
            if x < y {
                return TextOrder::Less;
            }
            return TextOrder::Greater;
        }
        assert(a@.skip(i as int).drop_first() =~= a@.skip(i + 1));
        assert(b@.skip(i as int).drop_first() =~= b@.skip(i + 1));
        i = i + 1;
    }
    if i < b.len() {
        TextOrder::Less
    } else if i < a.len() {
        TextOrder::Greater
    } else {
        TextOrder::Equal
    }
}

/// Compares the texts `a` and `b` as `text_compare` does.
pub fn compare_text(a: &str, b: &str) -> (r: TextOrder)
    ensures
        r == TextOrder::Less <==> text_compare(a@, b@) < 0,
        r == TextOrder::Equal <==> text_compare(a@, b@) == 0,
        r == TextOrder::Greater <==> text_compare(a@, b@) > 0,
{
    let x = chars_of(a);
    let y = chars_of(b);
    compare_chars(&x, &y, None)
}

/// Compares the paths `a` and `b` as `path_text_compare` does.
pub fn compare_path_text(a: &str, b: &str, separator: char) -> (r: TextOrder)
    ensures
        r == TextOrder::Less <==> path_text_compare(a@, b@, separator) < 0,
        r == TextOrder::Equal <==> path_text_compare(a@, b@, separator) == 0,
        r == TextOrder::Greater <==> path_text_compare(a@, b@, separator) > 0,
{
    let x = chars_of(a);
    let y = chars_of(b);
    compare_chars(&x, &y, Some(separator))
}

/// Appends the character `c` to `s`.
///
/// Trusted: calls `String::push`, which std documents as appending the given
/// `char` to the end of the string.
#[verifier::external_body]
pub(crate) fn push_char(s: &mut String, c: char)
    ensures
        final(s)@ == old(s)@.push(c),
{
    s.push(c);
}

/// The decimal digit character for `d`.
pub open spec fn digit_char(d: nat) -> char {
    if d == 0 { '0' }
    else if d == 1 { '1' }
    else if d == 2 { '2' }
    else if d == 3 { '3' }
    else if d == 4 { '4' }
    else if d == 5 { '5' }
    else if d == 6 { '6' }
    else if d == 7 { '7' }
    else if d == 8 { '8' }
    else { '9' }
}

/// `n` written in decimal, with no sign and no leading zeros.
pub open spec fn decimal(n: nat) -> Seq<char>
    decreases n,
{
    if n < 10 {
        seq![digit_char(n)]
    } else {
        decimal(n / 10).push(digit_char(n % 10))
    }
}

fn digit_text(d: u64) -> (s: &'static str)
    requires
        d < 10,
    ensures
        s@ == seq![digit_char(d as nat)],
{
    if d == 0 {
        proof { reveal_strlit("0"); }
        "0"
    } else if d == 1 {
        proof { reveal_strlit("1"); }
        "1"
    } else if d == 2 {
        proof { reveal_strlit("2"); }
        "2"
    } else if d == 3 {
        proof { reveal_strlit("3"); }
        "3"
    } else if d == 4 {
        proof { reveal_strlit("4"); }
        "4"
    } else if d == 5 {
        proof { reveal_strlit("5"); }
        "5"
    } else if d == 6 {
        proof { reveal_strlit("6"); }
        "6"
    } else if d == 7 {
        proof { reveal_strlit("7"); }
        "7"
    } else if d == 8 {
        proof { reveal_strlit("8"); }
        "8"
    } else {
        proof { reveal_strlit("9"); }
        "9"
    }
}

/// Writes `n` in decimal.
pub fn decimal_string(n: u64) -> (s: String)
    ensures
        s@ == decimal(n as nat),
    decreases n,
{
    if n < 10 {
        digit_text(n).to_owned()
    } else {
        let mut s = decimal_string(n / 10);
        s.append(digit_text(n % 10));
        s
    }
}

} // verus!
