//! Text: comparison, search, numbers in decimal, and case.
use vstd::prelude::*;
use vstd::string::*;

use crate::search::first_where;
use crate::search::lemma_first_where;
use crate::search::lemma_first_where_holds;

verus! {

/// `String::push` puts the character behind the text.
pub assume_specification[ String::push ](text: &mut String, c: char)
    ensures
        final(text)@ == old(text)@.push(c),
;

/// What `str::to_uppercase` makes of a text.
pub uninterp spec fn uppercase(text: Seq<char>) -> Seq<char>;

/// The upper-case letter of `a` to `z`; any other character itself.
pub open spec fn ascii_upper(c: char) -> char {
    if 'a' <= c <= 'z' {
        (c as int - 32) as char
    } else {
        c
    }
}

/// `s` with `a` to `z` replaced by `A` to `Z`.
pub open spec fn ascii_uppercase(s: Seq<char>) -> Seq<char> {
    s.map_values(|c: char| ascii_upper(c))
}

/// Whether every character of `s` is ASCII.
pub open spec fn all_ascii(s: Seq<char>) -> bool {
    forall|i: int| 0 <= i < s.len() ==> (#[trigger] s[i] as int) < 128
}

/// Calls `str::to_uppercase`. The result is Unicode's upper case of the text, named
/// [`uppercase`]; of a text that is all ASCII it is the text with `a` to `z` replaced by `A`
/// to `Z`. Which characters the upper case of other text holds rests on Unicode's tables and is
/// left unsaid.
#[verifier::external_body]
fn to_upper(text: &str) -> (r: String)
    ensures
        r@ == uppercase(text@),
        all_ascii(text@) ==> r@ == ascii_uppercase(text@),
{
    text.to_uppercase()
}

/// The property of being the character `sep`.
pub open spec fn is_char(sep: char) -> spec_fn(char) -> bool {
    |c: char| c == sep
}

/// The part of `s` before the first `sep`; all of it when there is none.
pub open spec fn until_char(s: Seq<char>, sep: char) -> Seq<char> {
    s.take(first_where(s, is_char(sep)))
}

/// The asset that a ticker or a market slug is about: its part before the first `-`, in upper
/// case.
pub open spec fn asset_name(ticker: Seq<char>) -> Seq<char> {
    uppercase(until_char(ticker, '-'))
}

/// What is known of the asset of a ticker whose part before the first `-` is ASCII: it is that part
/// with `a` to `z` replaced by `A` to `Z`, so that it holds no `-`. Of an empty part it is empty.
pub open spec fn is_asset_text(ticker: Seq<char>, asset: Seq<char>) -> bool {
    let part = until_char(ticker, '-');
    &&& all_ascii(part) ==> asset == ascii_uppercase(part) && !asset.contains('-')
    &&& part.len() == 0 ==> asset.len() == 0
}

/// Whether `part` occurs in `s` in one piece.
pub open spec fn has_part(s: Seq<char>, part: Seq<char>) -> bool {
    exists|i: int|
        0 <= i <= s.len() - part.len() && #[trigger] s.subrange(i, i + part.len()) == part
}

/// `s` with each line feed replaced by a space.
pub open spec fn one_line(s: Seq<char>) -> Seq<char> {
    s.map_values(
        |c: char|
            if c == '\n' {
                ' '
            } else {
                c
            },
    )
}

/// Whether `a` comes before `b` when texts are ordered character by character and a prefix
/// comes before what it begins.
pub open spec fn comes_before(a: Seq<char>, b: Seq<char>) -> bool
    decreases a.len(),
{
    if b.len() == 0 {
        false
    } else if a.len() == 0 {
        true
    } else if a[0] == b[0] {
        comes_before(a.drop_first(), b.drop_first())
    } else {
        a[0] < b[0]
    }
}

/// The decimal digit `d`.
pub open spec fn digit_char(d: int) -> char {
    (48 + d) as char
}

/// `n` in decimal.
pub open spec fn nat_text(n: nat) -> Seq<char>
    decreases n,
{
    if n < 10 {
        seq![digit_char(n as int)]
    } else {
        nat_text(n / 10).push(digit_char((n % 10) as int))
    }
}

/// `n` in decimal, with a minus sign where it is negative.
pub open spec fn int_text(n: int) -> Seq<char> {
    if n < 0 {
        seq!['-'] + nat_text((-n) as nat)
    } else {
        nat_text(n as nat)
    }
}

/// `n` in decimal, with a zero before it where it has one digit.
pub open spec fn two_digits(n: nat) -> Seq<char> {
    if n < 10 {
        seq!['0'] + nat_text(n)
    } else {
        nat_text(n)
    }
}

/// Minutes and seconds: the minutes in decimal, a colon, and the seconds in two digits.
pub open spec fn minutes_seconds(seconds: nat) -> Seq<char> {
    nat_text(seconds / 60) + ":"@ + two_digits(seconds % 60)
}

/// The characters of `s`.
pub fn chars_of(s: &str) -> (r: Vec<char>)
    ensures
        r@ == s@,
{
    let mut chars: Vec<char> = Vec::new();
    for c in it: s.chars()
        invariant
            it.seq() == s@,
            chars@ == it.seq().take(it.index()),
    {
        chars.push(c);
    }
    chars
}

/// Whether two texts are the same.
pub fn same_text(a: &str, b: &str) -> (r: bool)
    ensures
        r == (a@ == b@),
{
    let mut left = a.chars();
    let mut right = b.chars();
    let ghost mut k: int = 0;
    loop
        invariant
            0 <= k <= a@.len(),
            k <= b@.len(),
            vstd::std_specs::iter::IteratorSpec::obeys_prophetic_iter_laws(&left),
            vstd::std_specs::iter::IteratorSpec::obeys_prophetic_iter_laws(&right),
            vstd::std_specs::iter::IteratorSpec::remaining(&left) == a@.skip(k),
            vstd::std_specs::iter::IteratorSpec::remaining(&right) == b@.skip(k),
            a@.take(k) == b@.take(k),
        decreases a@.len() - k,
    {
        match (left.next(), right.next()) {
            (Some(x), Some(y)) => {
                if x != y {
                    return false;
                }
                proof {
                    k = k + 1;
                }
            },
            (None, None) => {
                proof {
                    assert(a@.take(k) == a@);
                    assert(b@.take(k) == b@);
                }
                return true;
            },
            _ => {
                return false;
            },
        }
    }
}

/// Whether an optional text is there and is `b`.
pub fn is_text(a: &Option<String>, b: &str) -> (r: bool)
    ensures
        r == (a matches Some(s) && s@ == b@),
{
    match a {
        Some(s) => same_text(s.as_str(), b),
        None => false,
    }
}

/// The asset that a ticker or a market slug is about, as [`asset_name`] says.
pub fn asset_of(ticker: &str) -> (r: String)
    ensures
        r@ == asset_name(ticker@),
        is_asset_text(ticker@, r@),
{
    let chars = chars_of(ticker);
    let mut end: usize = 0;
    while end < chars.len() && chars[end] != '-'
        invariant
            chars@ == ticker@,
            end <= chars.len(),
            forall|j: int| 0 <= j < end ==> #[trigger] chars@[j] != '-',
        decreases chars.len() - end,
    {
        end = end + 1;
    }
    proof {
        lemma_first_where(ticker@, is_char('-'), end as int);
    }
    let head = ticker.substring_char(0, end);
    assert(head@ == ticker@.take(end as int));
    let asset = to_upper(head);
    proof {
        if all_ascii(head@) {
            assert forall|j: int| 0 <= j < asset@.len() implies #[trigger] asset@[j] != '-' by {
                assert(asset@[j] == ascii_upper(head@[j]));
                assert(head@[j] == chars@[j]);
            }
        }
    }
    asset
}

/// Whether `part` occurs in `s`.
pub fn contains_text(s: &str, part: &str) -> (r: bool)
    ensures
        r == has_part(s@, part@),
{
    let hay = chars_of(s);
    let needle = chars_of(part);
    if needle.len() > hay.len() {
        return false;
    }
    let last: usize = hay.len() - needle.len();
    let mut i: usize = 0;
    while i <= last
        invariant
            hay@ == s@,
            needle@ == part@,
            needle.len() <= hay.len(),
            last == hay.len() - needle.len(),
            i <= last + 1,
            forall|k: int|
                0 <= k < i ==> #[trigger] s@.subrange(k, k + part@.len()) != part@,
        decreases last + 1 - i,
    {
        let mut j: usize = 0;
        while j < needle.len() && hay[i + j] == needle[j]
            invariant
                hay@ == s@,
                needle@ == part@,
                needle.len() <= hay.len(),
                last == hay.len() - needle.len(),
                i <= last,
                j <= needle.len(),
                forall|m: int| 0 <= m < j ==> hay@[i + m] == #[trigger] needle@[m],
            decreases needle.len() - j,
        {
            j = j + 1;
        }
        if j == needle.len() {
            assert(s@.subrange(i as int, i + part@.len()) == part@);
            return true;
        }
        proof {
            let found = s@.subrange(i as int, i + part@.len());
            assert(found[j as int] == hay@[i + j]);
            assert(found != part@);
        }
        if i == last {
            return false;
        }
        i = i + 1;
    }
    false
}

/// The text on one line, as [`one_line`] says.
pub fn single_line(s: &str) -> (r: String)
    ensures
        r@ == one_line(s@),
{
    let chars = chars_of(s);
    let mut line = String::new();
    let mut i: usize = 0;
    while i < chars.len()
        invariant
            chars@ == s@,
            i <= chars.len(),
            line@ == one_line(s@).take(i as int),
        decreases chars.len() - i,
    {
        if chars[i] == '\n' {
            line.push(' ');
        } else {
            line.push(chars[i]);
        }
        i = i + 1;
    }
    line
}

/// Whether `a` comes before `b`, as [`comes_before`] says.
pub fn text_comes_before(a: &str, b: &str) -> (r: bool)
    ensures
        r == comes_before(a@, b@),
{
    let left = chars_of(a);
    let right = chars_of(b);
    let mut i: usize = 0;
    assert(a@.skip(0) == a@);
    assert(b@.skip(0) == b@);
    while i < left.len() && i < right.len()
        invariant
            left@ == a@,
            right@ == b@,
            i <= left.len(),
            i <= right.len(),
            comes_before(a@, b@) == comes_before(a@.skip(i as int), b@.skip(i as int)),
        decreases left.len() - i,
    {
        if left[i] != right[i] {
            return left[i] < right[i];
        }
        proof {
            assert(a@.skip(i as int).drop_first() == a@.skip(i + 1));
            assert(b@.skip(i as int).drop_first() == b@.skip(i + 1));
        }
        i = i + 1;
    }
    i < right.len()
}

/// `n` in decimal.
pub fn u64_text(n: u64) -> (r: String)
    ensures
        r@ == nat_text(n as nat),
    decreases n,
{
    let mut text = if n < 10 {
        String::new()
    } else {
        u64_text(n / 10)
    };
    let digit: u8 = (n % 10) as u8;
    text.push((48 + digit) as char);
    text
}

/// `n` in decimal, with its sign.
pub fn i64_text(n: i64) -> (r: String)
    ensures
        r@ == int_text(n as int),
{
    if n < 0 {
        let size: u64 = (-(n as i128)) as u64;
        let mut text = String::new();
        text.push('-');
        text.append(u64_text(size).as_str());
        assert(text@ == seq!['-'] + nat_text(size as nat));
        text
    } else {
        u64_text(n as u64)
    }
}

/// `n` in at least two digits.
pub fn two_digit_text(n: u64) -> (r: String)
    ensures
        r@ == two_digits(n as nat),
{
    if n < 10 {
        let mut text = String::new();
        text.push('0');
        text.append(u64_text(n).as_str());
        assert(text@ == seq!['0'] + nat_text(n as nat));
        text
    } else {
        u64_text(n)
    }
}

/// Minutes and seconds, as [`minutes_seconds`] says.
pub fn minutes_seconds_text(seconds: u64) -> (r: String)
    ensures
        r@ == minutes_seconds(seconds as nat),
{
    let mut text = u64_text(seconds / 60);
    text.append(":");
    text.append(two_digit_text(seconds % 60).as_str());
    text
}

/// Only what stands before the first `-` makes the asset: nothing behind it matters, a text without
/// `-` counts as a whole, and the part itself holds no `-`.
pub proof fn law_only_the_first_part_makes_the_asset(a: Seq<char>, b: Seq<char>)
    ensures
        !until_char(a, '-').contains('-'),
        !a.contains('-') ==> {
            &&& until_char(a, '-') == a
            &&& until_char(a + "-"@ + b, '-') == a
            &&& asset_name(a) == uppercase(a)
            &&& asset_name(a + "-"@ + b) == asset_name(a)
        },
{
    reveal_strlit("-");
    lemma_first_where_holds(a, is_char('-'));
    let part = until_char(a, '-');
    assert forall|j: int| 0 <= j < part.len() implies #[trigger] part[j] != '-' by {
        assert(!is_char('-')(a[j]));
    }
    if !a.contains('-') {
        let whole = a + "-"@ + b;
        assert forall|j: int| 0 <= j < a.len() implies !is_char('-')(#[trigger] a[j]) by {
            assert(a.contains(a[j]));
        }
        lemma_first_where(a, is_char('-'), a.len() as int);
        assert forall|j: int| 0 <= j < a.len() implies !is_char('-')(#[trigger] whole[j]) by {
            assert(whole[j] == a[j]);
        }
        assert(whole[a.len() as int] == '-');
        lemma_first_where(whole, is_char('-'), a.len() as int);
        assert(until_char(a, '-') =~= a);
        assert(until_char(whole, '-') =~= a);
    }
}

} // verus!
