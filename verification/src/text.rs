//! Text that commands are read from and answers are made of.

use vstd::prelude::*;

verus! {

/// Unicode's White_Space property.
pub open spec fn is_white_space(c: char) -> bool {
    let n = c as u32;
    ||| 0x9 <= n <= 0xD
    ||| n == 0x20
    ||| n == 0x85
    ||| n == 0xA0
    ||| n == 0x1680
    ||| 0x2000 <= n <= 0x200A
    ||| n == 0x2028
    ||| n == 0x2029
    ||| n == 0x202F
    ||| n == 0x205F
    ||| n == 0x3000
}

/// One of `0` to `9`.
pub open spec fn is_digit(c: char) -> bool {
    '0' as u32 <= c as u32 <= '9' as u32
}

pub open spec fn digit_value(c: char) -> int {
    c as u32 - '0' as u32
}

/// The digit that stands for `n`, for `n` below ten.
pub open spec fn digit_char(n: int) -> char {
    ('0' as u32 + n) as char
}

pub open spec fn all_digits(s: Seq<char>) -> bool {
    forall|i: int| 0 <= i < s.len() ==> is_digit(#[trigger] s[i])
}

/// The number that a row of decimal digits denotes.
pub open spec fn digits_value(s: Seq<char>) -> int
    decreases s.len(),
{
    if s.len() == 0 {
        0
    } else {
        10 * digits_value(s.drop_last()) + digit_value(s.last())
    }
}

/// Decimal digits of `n`, without leading zeros.
pub open spec fn natural(n: nat) -> Seq<char>
    decreases n,
{
    if n < 10 {
        seq![digit_char(n as int)]
    } else {
        natural(n / 10).push(digit_char((n % 10) as int))
    }
}

/// `n` in decimal, with a minus sign where it is negative.
pub open spec fn decimal(n: int) -> Seq<char> {
    if n < 0 {
        seq!['-'] + natural((-n) as nat)
    } else {
        natural(n as nat)
    }
}

/// `n` in two decimal digits, for `n` below a hundred.
pub open spec fn two_digits(n: int) -> Seq<char> {
    seq![digit_char(n / 10), digit_char(n % 10)]
}

/// `s` without the white space that it starts with.
pub open spec fn trim_start(s: Seq<char>) -> Seq<char>
    decreases s.len(),
{
    if s.len() > 0 && is_white_space(s[0]) {
        trim_start(s.skip(1))
    } else {
        s
    }
}

/// `s` without the white space that it ends with.
pub open spec fn trim_end(s: Seq<char>) -> Seq<char>
    decreases s.len(),
{
    if s.len() > 0 && is_white_space(s.last()) {
        trim_end(s.drop_last())
    } else {
        s
    }
}

/// `s` without the white space at its two ends.
pub open spec fn trimmed(s: Seq<char>) -> Seq<char> {
    trim_end(trim_start(s))
}

/// What stands before and after the first white space in `s`.
pub open spec fn split_at_white_space(s: Seq<char>) -> Option<(Seq<char>, Seq<char>)>
    decreases s.len(),
{
    if s.len() == 0 {
        None
    } else if is_white_space(s[0]) {
        Some((Seq::empty(), s.skip(1)))
    } else {
        match split_at_white_space(s.skip(1)) {
            Some((before, after)) => Some((seq![s[0]] + before, after)),
            None => None,
        }
    }
}

/// `s` without the `@` signs that it starts with.
pub open spec fn without_at(s: Seq<char>) -> Seq<char>
    decreases s.len(),
{
    if s.len() > 0 && s[0] == '@' {
        without_at(s.skip(1))
    } else {
        s
    }
}

/// The number that `s` denotes: decimal digits after at most one plus sign, at most `u32::MAX`.
pub open spec fn u32_in(s: Seq<char>) -> Option<u32> {
    let digits = if s.len() > 0 && s[0] == '+' {
        s.skip(1)
    } else {
        s
    };
    if digits.len() > 0 && all_digits(digits) && digits_value(digits) <= u32::MAX {
        Some(digits_value(digits) as u32)
    } else {
        None
    }
}

/// The lower case of `s`, as `str::to_lowercase` gives it.
pub uninterp spec fn lowercase(s: Seq<char>) -> Seq<char>;

/// Calls `str::to_lowercase`. That a text has one lower case is believed; which one it is, is left
/// to the Unicode tables of the standard library.
#[verifier::external_body]
pub(crate) fn to_lowercase(text: &str) -> (lower: String)
    ensures
        lower@ == lowercase(text@),
{
    text.to_lowercase()
}

/// Calls `str::trim`, which is believed to take the white space off both ends of the text and
/// nothing else.
#[verifier::external_body]
pub(crate) fn trim(text: &str) -> (rest: &str)
    ensures
        rest@ == trimmed(text@),
{
    text.trim()
}

/// Calls `str::split_once` with `char::is_whitespace`, which is believed to cut the text at its
/// first white space and to give `None` where there is none.
#[verifier::external_body]
pub(crate) fn split_once(text: &str) -> (parts: Option<(&str, &str)>)
    ensures
        match parts {
            Some((before, after)) => split_at_white_space(text@) == Some((before@, after@)),
            None => split_at_white_space(text@) is None,
        },
{
    text.split_once(char::is_whitespace)
}

/// Calls `str::trim_start_matches` with `'@'`, which is believed to take off every `@` that the
/// text starts with.
#[verifier::external_body]
pub(crate) fn trim_at(text: &str) -> (rest: &str)
    ensures
        rest@ == without_at(text@),
{
    text.trim_start_matches('@')
}

/// Calls `str::parse` for `u32`, which is believed to accept an optional plus sign and decimal
/// digits, and to fail on any other text and on numbers that do not fit.
#[verifier::external_body]
pub(crate) fn parse_u32(text: &str) -> (number: Option<u32>)
    ensures
        number == u32_in(text@),
{
    text.parse::<u32>().ok()
}

/// Formats the number by its `Display`, which is believed to give its decimal notation.
#[verifier::external_body]
pub(crate) fn decimal_text(n: i64) -> (text: String)
    ensures
        text@ == decimal(n as int),
{
    format!("{n}")
}

/// The texts of `parts`.
pub open spec fn views(parts: Seq<String>) -> Seq<Seq<char>> {
    parts.map_values(|part: String| part@)
}

/// The texts one after the other, with `separator` between them.
pub open spec fn joined(parts: Seq<Seq<char>>, separator: Seq<char>) -> Seq<char>
    decreases parts.len(),
{
    if parts.len() == 0 {
        Seq::empty()
    } else if parts.len() == 1 {
        parts[0]
    } else {
        joined(parts.drop_last(), separator) + separator + parts.last()
    }
}

/// The texts one after the other, with `separator` between them.
pub fn join(parts: &Vec<String>, separator: &str) -> (whole: String)
    ensures
        whole@ == joined(views(parts@), separator@),
{
    let mut whole = String::new();
    let mut i: usize = 0;
    while i < parts.len()
        invariant
            i <= parts.len(),
            whole@ == joined(views(parts@).take(i as int), separator@),
        decreases parts.len() - i,
    {
        let ghost some = views(parts@).take(i + 1);
        assert(some.drop_last() =~= views(parts@).take(i as int));
        assert(some.last() == parts[i as int]@);
        if i > 0 {
            whole.append(separator);
        } else {
            assert(whole@ =~= Seq::empty());
        }
        whole.append(parts[i].as_str());
        assert(whole@ =~= joined(some, separator@));
        i = i + 1;
    }
    assert(views(parts@).take(i as int) =~= views(parts@));
    whole
}

/// `s` as Telegram's HTML shows it as it is.
pub open spec fn html_escaped(s: Seq<char>) -> Seq<char>
    decreases s.len(),
{
    if s.len() == 0 {
        Seq::empty()
    } else {
        html_escaped(s.drop_last()) + if s.last() == '&' {
            "&amp;"@
        } else if s.last() == '<' {
            "&lt;"@
        } else if s.last() == '>' {
            "&gt;"@
        } else {
            seq![s.last()]
        }
    }
}

/// A link to the Telegram account, with `name` as its text.
pub open spec fn user_mention(telegram_id: u64, name: Seq<char>) -> Seq<char> {
    "<a href=\"tg://user?id="@ + decimal(telegram_id as int) + "\">"@ + html_escaped(name) + "</a>"@
}

/// Calls `teloxide::utils::html::user_mention`, which is believed to write a link to the account
/// with the name as its text, and to escape `&`, `<` and `>` in the name.
#[verifier::external_body]
pub(crate) fn html_user_mention(telegram_id: u64, name: &str) -> (link: String)
    ensures
        link@ == user_mention(telegram_id, name@),
{
    teloxide::utils::html::user_mention(teloxide::types::UserId(telegram_id), name)
}

pub open spec fn all_white_space(s: Seq<char>) -> bool {
    forall|i: int| 0 <= i < s.len() ==> is_white_space(#[trigger] s[i])
}

/// White space around a text that neither starts nor ends with any is all that trimming takes off.
pub proof fn trimming_takes_the_white_space_around(before: Seq<char>, s: Seq<char>, after: Seq<char>)
    requires
        all_white_space(before),
        all_white_space(after),
        s.len() > 0 ==> !is_white_space(s[0]) && !is_white_space(s.last()),
    ensures
        trimmed(before + s + after) == s,
{
    if s.len() == 0 {
        let white = before + s + after;
        lemma_trim_start(white, s);
        assert(white + s =~= white);
    } else {
        lemma_trim_start(before, s + after);
        assert(before + s + after =~= before + (s + after));
        lemma_trim_end(s, after);
    }
}

proof fn lemma_trim_start(before: Seq<char>, s: Seq<char>)
    requires
        all_white_space(before),
        s.len() > 0 ==> !is_white_space(s[0]),
    ensures
        trim_start(before + s) == s,
    decreases before.len(),
{
    if before.len() == 0 {
        assert(before + s =~= s);
    } else {
        assert((before + s)[0] == before[0]);
        assert((before + s).skip(1) =~= before.skip(1) + s);
        lemma_trim_start(before.skip(1), s);
    }
}

proof fn lemma_trim_end(s: Seq<char>, after: Seq<char>)
    requires
        all_white_space(after),
        s.len() > 0 ==> !is_white_space(s.last()),
    ensures
        trim_end(s + after) == s,
    decreases after.len(),
{
    if after.len() == 0 {
        assert(s + after =~= s);
    } else {
        assert((s + after).last() == after.last());
        assert((s + after).drop_last() =~= s + after.drop_last());
        lemma_trim_end(s, after.drop_last());
    }
}

/// The decimal digits of a number denote it.
pub proof fn natural_denotes_its_number(n: nat)
    ensures
        natural(n).len() > 0,
        all_digits(natural(n)),
        digits_value(natural(n)) == n,
    decreases n,
{
    if n < 10 {
        let s = natural(n);
        assert(s.drop_last() =~= Seq::empty());
        assert(digits_value(Seq::<char>::empty()) == 0);
    } else {
        natural_denotes_its_number(n / 10);
        let s = natural(n);
        assert(s.drop_last() =~= natural(n / 10));
    }
}

} // verus!
