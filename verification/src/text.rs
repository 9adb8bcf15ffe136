//! Pieces of text.

use vstd::prelude::*;
use vstd::string::{StrSliceExecFns, StringExecFns};

verus! {

/// The character of a decimal digit.
pub open spec fn digit_char(digit: nat) -> char {
    ('0' as nat + digit) as char
}

/// A number in decimal, without leading zeros.
pub open spec fn decimal(n: nat) -> Seq<char>
    decreases n,
{
    if n < 10 {
        seq![digit_char(n)]
    } else {
        decimal(n / 10).push(digit_char(n % 10))
    }
}

fn digit_text(digit: u64) -> (text: &'static str)
    requires
        digit < 10,
    ensures
        text@ == seq![digit_char(digit as nat)],
{
    proof {
        reveal_strlit("0");
        reveal_strlit("1");
        reveal_strlit("2");
        reveal_strlit("3");
        reveal_strlit("4");
        reveal_strlit("5");
        reveal_strlit("6");
        reveal_strlit("7");
        reveal_strlit("8");
        reveal_strlit("9");
    }
    let text = match digit {
        0 => "0",
        1 => "1",
        2 => "2",
        3 => "3",
        4 => "4",
        5 => "5",
        6 => "6",
        7 => "7",
        8 => "8",
        _ => "9",
    };
    proof {
        assert(text@ =~= seq![digit_char(digit as nat)]);
    }
    text
}

/// A number in decimal.
pub fn decimal_text(n: u64) -> (text: String)
    ensures
        text@ == decimal(n as nat),
    decreases n,
{
    if n < 10 {
        String::from_str(digit_text(n))
    } else {
        let mut text = decimal_text(n / 10);
        text.append(digit_text(n % 10));
        proof {
            assert(text@ =~= decimal(n as nat));
        }
        text
    }
}

/// The views of strings.
pub open spec fn views(strings: Seq<String>) -> Seq<Seq<char>> {
    Seq::new(strings.len(), |i: int| strings[i]@)
}

/// The view of a string that may be missing.
pub open spec fn opt_view(string: Option<String>) -> Option<Seq<char>> {
    match string {
        Some(string) => Some(string@),
        None => None,
    }
}

/// A copy of strings.
pub fn clone_strings(strings: &Vec<String>) -> (copy: Vec<String>)
    ensures
        views(copy@) == views(strings@),
{
    let mut copy: Vec<String> = Vec::new();
    let mut i: usize = 0;
    while i < strings.len()
        invariant
            i <= strings@.len(),
            copy@.len() == i,
            forall|j: int| 0 <= j < i ==> (#[trigger] copy@[j])@ == strings@[j]@,
        decreases strings@.len() - i,
    {
        copy.push(strings[i].clone());
        i = i + 1;
    }
    proof {
        assert(views(copy@) =~= views(strings@));
    }
    copy
}

/// Whether a text starts with another, at a place.
pub open spec fn has_at(text: Seq<char>, part: Seq<char>, at: int) -> bool {
    0 <= at && at + part.len() <= text.len() && text.subrange(at, at + part.len()) == part
}

pub fn starts_with_at(text: &str, part: &str, at: usize) -> (r: bool)
    requires
        at <= text@.len(),
    ensures
        r == has_at(text@, part@, at as int),
{
    let text_len: usize = text.unicode_len();
    let part_len: usize = part.unicode_len();
    if part_len > text_len - at {
        return false;
    }
    let mut i: usize = 0;
    while i < part_len
        invariant
            i <= part_len,
            part_len == part@.len(),
            at + part_len <= text@.len() == text_len,
            forall|j: int| 0 <= j < i ==> text@[at + j] == part@[j],
        decreases part_len - i,
    {
        if text.get_char(at + i) != part.get_char(i) {
            proof {
                assert(text@.subrange(at as int, at + part@.len())[i as int] != part@[i as int]);
            }
            return false;
        }
        i = i + 1;
    }
    proof {
        assert(text@.subrange(at as int, at + part@.len()) =~= part@);
    }
    true
}

/// Whether a text starts with another.
pub fn starts_with(text: &str, prefix: &str) -> (r: bool)
    ensures
        r == has_at(text@, prefix@, 0),
{
    starts_with_at(text, prefix, 0)
}

/// Whether a character occurs in a text.
pub fn contains_char(text: &str, c: char) -> (r: bool)
    ensures
        r == text@.contains(c),
{
    let len: usize = text.unicode_len();
    let mut i: usize = 0;
    while i < len
        invariant
            i <= len == text@.len(),
            forall|j: int| 0 <= j < i ==> text@[j] != c,
        decreases len - i,
    {
        if text.get_char(i) == c {
            return true;
        }
        i = i + 1;
    }
    false
}

/// A text without any leading repetitions of `part`.
pub open spec fn trimmed(text: Seq<char>, part: Seq<char>) -> Seq<char>
    decreases text.len(),
{
    if part.len() > 0 && has_at(text, part, 0) {
        trimmed(text.skip(part.len() as int), part)
    } else {
        text
    }
}

pub fn trim_start_matches(text: &str, part: &str) -> (rest: String)
    requires
        part@.len() > 0,
    ensures
        rest@ == trimmed(text@, part@),
{
    let len: usize = text.unicode_len();
    let step: usize = part.unicode_len();
    let mut at: usize = 0;
    proof {
        assert(text@.skip(0) =~= text@);
    }
    while starts_with_at(text, part, at)
        invariant
            at <= len == text@.len(),
            step == part@.len() > 0,
            trimmed(text@, part@) == trimmed(text@.skip(at as int), part@),
        decreases len - at,
    {
        proof {
            let rest = text@.skip(at as int);
            assert(rest.subrange(0, step as int) =~= text@.subrange(at as int, at + step));
            assert(rest.skip(step as int) =~= text@.skip(at + step));
        }
        at = at + step;
    }
    proof {
        let rest = text@.skip(at as int);
        if has_at(rest, part@, 0) {
            assert(rest.subrange(0, step as int) =~= text@.subrange(at as int, at + step));
        }
        assert(text@.subrange(at as int, len as int) =~= rest);
    }
    String::from_str(text.substring_char(at, len))
}

/// A text without any trailing repetitions of `c`.
pub open spec fn trimmed_end(text: Seq<char>, c: char) -> Seq<char>
    decreases text.len(),
{
    if text.len() > 0 && text.last() == c {
        trimmed_end(text.drop_last(), c)
    } else {
        text
    }
}

pub fn trim_end_matches(text: &str, c: char) -> (rest: String)
    ensures
        rest@ == trimmed_end(text@, c),
{
    let mut len: usize = text.unicode_len();
    proof {
        assert(text@.take(len as int) =~= text@);
    }
    while len > 0 && text.get_char(len - 1) == c
        invariant
            len <= text@.len(),
            trimmed_end(text@, c) == trimmed_end(text@.take(len as int), c),
        decreases len,
    {
        proof {
            assert(text@.take(len as int).drop_last() =~= text@.take(len - 1));
        }
        len = len - 1;
    }
    proof {
        assert(text@.subrange(0, len as int) =~= text@.take(len as int));
    }
    String::from_str(text.substring_char(0, len))
}

/// The characters behind a place.
pub fn rest_from(text: &str, at: usize) -> (rest: String)
    requires
        at <= text@.len(),
    ensures
        rest@ == text@.skip(at as int),
{
    let len: usize = text.unicode_len();
    proof {
        assert(text@.subrange(at as int, len as int) =~= text@.skip(at as int));
    }
    String::from_str(text.substring_char(at, len))
}

/// Whether some line of a text starts with `prefix`.
pub open spec fn has_line_with(text: Seq<char>, prefix: Seq<char>) -> bool {
    exists|at: int| #[trigger] has_at(text, prefix, at) && (at == 0 || text[at - 1] == '\n')
}

pub fn any_line_starts_with(text: &str, prefix: &str) -> (r: bool)
    ensures
        r == has_line_with(text@, prefix@),
{
    let len: usize = text.unicode_len();
    let mut at: usize = 0;
    while at < len
        invariant
            at <= len == text@.len(),
            forall|k: int|
                0 <= k < at ==> !(#[trigger] has_at(text@, prefix@, k) && (k == 0 || text@[k - 1]
                    == '\n')),
        decreases len - at,
    {
        if at == 0 || text.get_char(at - 1) == '\n' {
            if starts_with_at(text, prefix, at) {
                return true;
            }
        }
        at = at + 1;
    }
    if len == 0 || text.get_char(len - 1) == '\n' {
        return starts_with_at(text, prefix, len);
    }
    false
}

/// Whether a character separates words.
pub open spec fn is_space(c: char) -> bool {
    let code = c as u32;
    ||| 0x09 <= code <= 0x0d
    ||| code == 0x20
    ||| code == 0x85
    ||| code == 0xa0
    ||| code == 0x1680
    ||| 0x2000 <= code <= 0x200a
    ||| code == 0x2028
    ||| code == 0x2029
    ||| code == 0x202f
    ||| code == 0x205f
    ||| code == 0x3000
}

fn is_whitespace(c: char) -> (r: bool)
    ensures
        r == is_space(c),
{
    let code: u32 = c as u32;
    (code >= 0x09 && code <= 0x0d) || code == 0x20 || code == 0x85 || code == 0xa0 || code == 0x1680
        || (code >= 0x2000 && code <= 0x200a) || code == 0x2028 || code == 0x2029 || code == 0x202f
        || code == 0x205f || code == 0x3000
}

/// Whether `word` is one of the words of a text, which white space separates.
pub open spec fn has_word(text: Seq<char>, word: Seq<char>) -> bool {
    exists|at: int| #[trigger]
        has_at(text, word, at) && (at == 0 || is_space(text[at - 1])) && (at + word.len()
            == text.len() || is_space(text[at + word.len()]))
}

/// Whether `word`, which holds no white space, is one of the words of a text.
pub fn contains_word(text: &str, word: &str) -> (r: bool)
    requires
        word@.len() > 0,
        forall|i: int| 0 <= i < word@.len() ==> !is_space(#[trigger] word@[i]),
    ensures
        r == has_word(text@, word@),
{
    let len: usize = text.unicode_len();
    let word_len: usize = word.unicode_len();
    let mut at: usize = 0;
    while at < len
        invariant
            at <= len == text@.len(),
            word_len == word@.len() > 0,
            forall|k: int|
                0 <= k < at ==> !(#[trigger] has_at(text@, word@, k) && (k == 0 || is_space(
                    text@[k - 1],
                )) && (k + word@.len() == text@.len() || is_space(text@[k + word@.len()]))),
        decreases len - at,
    {
        if (at == 0 || is_whitespace(text.get_char(at - 1))) && starts_with_at(text, word, at) {
            if at + word_len == len || is_whitespace(text.get_char(at + word_len)) {
                return true;
            }
        }
        at = at + 1;
    }
    false
}

/// The number that a row of decimal digits stands for.
pub open spec fn digits_value(digits: Seq<char>) -> int
    decreases digits.len(),
{
    if digits.len() == 0 {
        0
    } else {
        digits_value(digits.drop_last()) * 10 + (digits.last() as int - '0' as int)
    }
}

/// A number in decimal is the number that its digits stand for; they are digits,
/// at least one, and the first is no zero unless it is the only one.
pub proof fn decimal_is_the_number(n: nat)
    ensures
        digits_value(decimal(n)) == n,
        decimal(n).len() > 0,
        n > 0 ==> decimal(n)[0] != '0',
        n == 0 ==> decimal(n) == seq!['0'],
        forall|i: int| 0 <= i < decimal(n).len() ==> '0' <= #[trigger] decimal(n)[i] <= '9',
    decreases n,
{
    reveal_with_fuel(digits_value, 2);
    if n < 10 {
        assert(decimal(n).drop_last() =~= Seq::empty());
    } else {
        decimal_is_the_number(n / 10);
        let digits = decimal(n);
        assert(digits.drop_last() =~= decimal(n / 10));
        assert(digits[0] == decimal(n / 10)[0]);
        assert forall|i: int| 0 <= i < digits.len() implies '0' <= #[trigger] digits[i] <= '9' by {
            if i < digits.len() - 1 {
                assert(digits[i] == decimal(n / 10)[i]);
            }
        }
    }
}

/// Without its leading repetitions a text does not start with the part, and is
/// what follows some whole number of repetitions.
pub proof fn trimming_takes_all_repetitions(text: Seq<char>, part: Seq<char>) -> (count: nat)
    requires
        part.len() > 0,
    ensures
        ({
            let rest = trimmed(text, part);
            &&& rest.len() + count * part.len() == text.len()
            &&& rest == text.skip(text.len() - rest.len())
            &&& !(rest.len() >= part.len() && rest.take(part.len() as int) == part)
            &&& forall|i: int|
                0 <= i < text.len() - rest.len() ==> #[trigger] text[i] == part[i
                    % part.len() as int]
        }),
    decreases text.len(),
{
    if has_at(text, part, 0) {
        let tail = text.skip(part.len() as int);
        let before = trimming_takes_all_repetitions(tail, part);
        let rest = trimmed(text, part);
        assert(rest == trimmed(tail, part));
        assert((before + 1) * part.len() == before * part.len() + part.len()) by (nonlinear_arith);
        assert(rest =~= text.skip(text.len() - rest.len()));
        assert forall|i: int| 0 <= i < text.len() - rest.len() implies #[trigger] text[i] == part[i
            % part.len() as int] by {
            if i < part.len() {
                assert(text.subrange(0, part.len() as int)[i] == text[i]);
                vstd::arithmetic::div_mod::lemma_small_mod(i as nat, part.len());
            } else {
                assert(tail[i - part.len()] == text[i]);
                vstd::arithmetic::div_mod::lemma_mod_sub_multiples_vanish(i, part.len() as int);
            }
        }
        before + 1
    } else {
        let rest = text;
        assert(text.skip(0) =~= text);
        if rest.len() >= part.len() && rest.take(part.len() as int) == part {
            assert(text.subrange(0, part.len() as int) =~= rest.take(part.len() as int));
        }
        0
    }
}

} // verus!
