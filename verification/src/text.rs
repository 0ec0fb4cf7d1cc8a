//! Reading plain text: lines, whitespace-separated words and decimal numbers.

use vstd::prelude::*;

use crate::identifiers::{char_is_whitespace, hex_lower, white_space};

verus! {

broadcast use vstd::string::group_string_axioms;

/// The pieces of `s` between occurrences of `sep`, as `split` yields them:
/// `n` separators make `n + 1` pieces.
pub open spec fn split_on<A>(s: Seq<A>, sep: A) -> Seq<Seq<A>>
    decreases s.len(),
{
    if s.len() == 0 {
        seq![Seq::<A>::empty()]
    } else {
        let init = split_on(s.drop_last(), sep);
        if s.last() == sep {
            init.push(Seq::<A>::empty())
        } else {
            init.update(init.len() - 1, init.last().push(s.last()))
        }
    }
}

pub proof fn lemma_split_on_len<A>(s: Seq<A>, sep: A)
    ensures
        split_on(s, sep).len() >= 1,
    decreases s.len(),
{
    if s.len() > 0 {
        lemma_split_on_len(s.drop_last(), sep);
    }
}

/// The pieces of `s` between newline characters, as `str::split('\n')`
/// yields them.
pub open spec fn split_lines(s: Seq<char>) -> Seq<Seq<char>> {
    split_on(s, '\n')
}

/// The maximal runs of non-whitespace characters of `s`, in order, as
/// `str::split_whitespace` yields them.
pub open spec fn words(s: Seq<char>) -> Seq<Seq<char>>
    decreases s.len(),
{
    if s.len() == 0 {
        Seq::empty()
    } else {
        let init = words(s.drop_last());
        let c = s.last();
        if white_space(c) {
            init
        } else if s.len() >= 2 && !white_space(s[s.len() - 2]) {
            init.update(init.len() - 1, init.last().push(c))
        } else {
            init.push(seq![c])
        }
    }
}

pub proof fn lemma_words_end_in_word(s: Seq<char>)
    requires
        s.len() > 0,
        !white_space(s.last()),
    ensures
        words(s).len() > 0,
    decreases s.len(),
{
    if s.len() >= 2 && !white_space(s[s.len() - 2]) {
        lemma_words_end_in_word(s.drop_last());
    }
}

pub open spec fn is_digit(c: char) -> bool {
    '0' <= c && c <= '9'
}

/// The number that a string of decimal digits spells.
pub open spec fn digits_value(s: Seq<char>) -> int
    decreases s.len(),
{
    if s.len() == 0 {
        0
    } else {
        digits_value(s.drop_last()) * 10 + (s.last() as int - '0' as int)
    }
}

/// The digits of an unsigned number: an optional leading `+` is dropped.
pub open spec fn unsigned_body(s: Seq<char>) -> Seq<char> {
    if s.len() > 0 && s[0] == '+' {
        s.skip(1)
    } else {
        s
    }
}

/// What `str::parse::<u64>` accepts: an optional `+` followed by one or
/// more decimal digits whose value fits in a `u64`.
pub open spec fn parse_u64(s: Seq<char>) -> Option<u64> {
    let body = unsigned_body(s);
    if body.len() > 0 && (forall|i: int| 0 <= i < body.len() ==> is_digit(#[trigger] body[i])) && digits_value(body)
        <= u64::MAX {
        Some(digits_value(body) as u64)
    } else {
        None
    }
}

proof fn lemma_digits_value_grows(s: Seq<char>, k: int)
    requires
        0 <= k <= s.len(),
        forall|i: int| 0 <= i < s.len() ==> is_digit(#[trigger] s[i]),
    ensures
        digits_value(s.take(k)) <= digits_value(s),
        0 <= digits_value(s),
    decreases s.len(),
{
    if s.len() > 0 {
        let init = s.drop_last();
        assert forall|i: int| 0 <= i < init.len() implies is_digit(#[trigger] init[i]) by {
            assert(init[i] == s[i]);
        }
        if k == s.len() {
            assert(s.take(k) =~= s);
            lemma_digits_value_grows(init, 0);
        } else {
            assert(s.take(k) =~= init.take(k));
            lemma_digits_value_grows(init, k);
        }
    } else {
        assert(s.take(k) =~= s);
    }
}

/// The characters of `text`, in order.
pub fn chars_of(text: &str) -> (chars: Vec<char>)
    ensures
        chars@ == text@,
{
    let mut chars: Vec<char> = Vec::new();
    for c in it: text.chars()
        invariant
            it.seq() == text@,
            chars@ == text@.take(it.index() as int),
    {
        proof {
            assert(text@.take(it.index() + 1) =~= text@.take(it.index() as int).push(c));
        }
        chars.push(c);
    }
    proof {
        assert(text@.take(text@.len() as int) =~= text@);
    }
    chars
}

/// Whether `s` spells `text`.
pub fn spells(s: &[char], text: &str) -> (same: bool)
    ensures
        same == (s@ == text@),
{
    let expected = chars_of(text);
    if s.len() != expected.len() {
        return false;
    }
    let mut i: usize = 0;
    while i < s.len()
        invariant
            s@.len() == expected@.len(),
            expected@ == text@,
            i <= s@.len(),
            forall|j: int| 0 <= j < i ==> s@[j] == expected@[j],
        decreases s@.len() - i,
    {
        if s[i] != expected[i] {
            return false;
        }
        i = i + 1;
    }
    proof {
        assert(s@ =~= expected@);
    }
    true
}

/// Whether `text` occurs in `s` starting at `start`.
pub fn occurs_at(s: &[char], start: usize, text: &str) -> (found: bool)
    ensures
        found == (start + text@.len() <= s@.len() && s@.subrange(start as int, start + text@.len()) == text@),
{
    let expected = chars_of(text);
    let n = s.len();
    if start > n || expected.len() > n - start {
        return false;
    }
    let mut i: usize = 0;
    while i < expected.len()
        invariant
            expected@ == text@,
            start + expected@.len() <= s@.len(),
            n == s@.len(),
            i <= expected@.len(),
            forall|j: int| 0 <= j < i ==> s@[start + j] == expected@[j],
        decreases expected@.len() - i,
    {
        if s[start + i] != expected[i] {
            proof {
                assert(s@.subrange(start as int, start + text@.len())[i as int] != text@[i as int]);
            }
            return false;
        }
        i = i + 1;
    }
    proof {
        assert(s@.subrange(start as int, start + text@.len()) =~= text@);
    }
    true
}

/// Parses `s` the way `str::parse::<u64>` does.
pub fn parse_decimal(s: &[char]) -> (value: Option<u64>)
    ensures
        value == parse_u64(s@),
{
    let start: usize = if s.len() > 0 && s[0] == '+' {
        1
    } else {
        0
    };
    let ghost body = unsigned_body(s@);
    proof {
        assert(body =~= s@.skip(start as int));
    }
    if start == s.len() {
        return None;
    }
    let mut value: u64 = 0;
    let mut i: usize = start;
    while i < s.len()
        invariant
            body == s@.skip(start as int),
            body == unsigned_body(s@),
            start <= i <= s@.len(),
            forall|j: int| start <= j < i ==> is_digit(#[trigger] s@[j]),
            value == digits_value(body.take(i - start)),
        decreases s@.len() - i,
    {
        let c = s[i];
        if !('0' <= c && c <= '9') {
            proof {
                assert(body[i - start] == c);
                assert(!is_digit(body[i - start]));
                assert(!is_digit(unsigned_body(s@)[i - start]));
            }
            return None;
        }
        let digit = (c as u32 - '0' as u32) as u64;
        proof {
            assert(body.take(i - start + 1).drop_last() =~= body.take(i - start));
            assert(body.take(i - start + 1).last() == c);
        }
        let next = match value.checked_mul(10) {
            Some(tens) => tens.checked_add(digit),
            None => None,
        };
        match next {
            Some(n) => {
                value = n;
            },
            None => {
                proof {
                    assert(digits_value(body.take(i - start + 1)) == value * 10 + digit);
                    assert(value * 10 + digit > u64::MAX);
                    if forall|j: int| 0 <= j < body.len() ==> is_digit(#[trigger] body[j]) {
                        lemma_digits_value_grows(body, i - start + 1);
                        assert(digits_value(unsigned_body(s@)) > u64::MAX);
                    } else {
                        let j = choose|j: int| 0 <= j < body.len() && !is_digit(#[trigger] body[j]);
                        assert(!is_digit(unsigned_body(s@)[j]));
                    }
                }
                return None;
            },
        }
        i = i + 1;
    }
    proof {
        assert(body.take(i - start) =~= body);
        assert forall|j: int| 0 <= j < body.len() implies is_digit(#[trigger] body[j]) by {
            assert(body[j] == s@[start + j]);
        }
    }
    Some(value)
}

/// The whitespace-separated words of `s`.
pub fn words_of(s: &[char]) -> (found: Vec<Vec<char>>)
    ensures
        found@.map_values(|w: Vec<char>| w@) == words(s@),
{
    let mut found: Vec<Vec<char>> = Vec::new();
    let mut i: usize = 0;
    while i < s.len()
        invariant
            i <= s@.len(),
            found@.map_values(|w: Vec<char>| w@) == words(s@.take(i as int)),
        decreases s@.len() - i,
    {
        let c = s[i];
        let ghost before = found@.map_values(|w: Vec<char>| w@);
        proof {
            assert(s@.take(i + 1).drop_last() =~= s@.take(i as int));
            assert(s@.take(i + 1).last() == c);
        }
        if !char_is_whitespace(c) {
            if i > 0 && !char_is_whitespace(s[i - 1]) {
                proof {
                    assert(s@.take(i as int).last() == s@[i - 1]);
                    lemma_words_end_in_word(s@.take(i as int));
                    assert(s@.take(i + 1)[i - 1] == s@[i - 1]);
                }
                let mut last = found.pop().unwrap();
                last.push(c);
                found.push(last);
                proof {
                    assert(found@.map_values(|w: Vec<char>| w@) =~= before.update(
                        before.len() - 1,
                        before.last().push(c),
                    ));
                }
            } else {
                let mut word: Vec<char> = Vec::new();
                word.push(c);
                found.push(word);
                proof {
                    assert(word@ =~= seq![c]);
                    assert(found@.map_values(|w: Vec<char>| w@) =~= before.push(seq![c]));
                }
            }
        }
        i = i + 1;
    }
    proof {
        assert(s@.take(s@.len() as int) =~= s@);
    }
    found
}

/// The newline-separated pieces of `s`.
pub fn lines_of(s: &[char]) -> (lines: Vec<Vec<char>>)
    ensures
        lines@.map_values(|l: Vec<char>| l@) == split_lines(s@),
{
    split_chars(s, '\n')
}

/// The pieces of `s` between occurrences of `sep`.
pub fn split_chars(s: &[char], sep: char) -> (pieces: Vec<Vec<char>>)
    ensures
        pieces@.map_values(|l: Vec<char>| l@) == split_on(s@, sep),
{
    let mut pieces: Vec<Vec<char>> = Vec::new();
    pieces.push(Vec::new());
    proof {
        assert(s@.take(0) =~= Seq::<char>::empty());
        assert(pieces@.map_values(|l: Vec<char>| l@) =~= split_on(s@.take(0), sep));
    }
    let mut i: usize = 0;
    while i < s.len()
        invariant
            i <= s@.len(),
            pieces@.len() >= 1,
            pieces@.map_values(|l: Vec<char>| l@) == split_on(s@.take(i as int), sep),
        decreases s@.len() - i,
    {
        let c = s[i];
        let ghost before = pieces@.map_values(|l: Vec<char>| l@);
        proof {
            assert(s@.take(i + 1).drop_last() =~= s@.take(i as int));
            assert(s@.take(i + 1).last() == c);
        }
        if c == sep {
            pieces.push(Vec::new());
            proof {
                assert(pieces@.map_values(|l: Vec<char>| l@) =~= before.push(Seq::<char>::empty()));
            }
        } else {
            let mut last = pieces.pop().unwrap();
            last.push(c);
            pieces.push(last);
            proof {
                assert(pieces@.map_values(|l: Vec<char>| l@) =~= before.update(before.len() - 1, before.last().push(c)));
            }
        }
        i = i + 1;
    }
    proof {
        assert(s@.take(s@.len() as int) =~= s@);
    }
    pieces
}

/// The pieces of `s` between occurrences of `sep`.
pub fn split_bytes(s: &[u8], sep: u8) -> (pieces: Vec<Vec<u8>>)
    ensures
        pieces@.map_values(|l: Vec<u8>| l@) == split_on(s@, sep),
{
    let mut pieces: Vec<Vec<u8>> = Vec::new();
    pieces.push(Vec::new());
    proof {
        assert(s@.take(0) =~= Seq::<u8>::empty());
        assert(pieces@.map_values(|l: Vec<u8>| l@) =~= split_on(s@.take(0), sep));
    }
    let mut i: usize = 0;
    while i < s.len()
        invariant
            i <= s@.len(),
            pieces@.len() >= 1,
            pieces@.map_values(|l: Vec<u8>| l@) == split_on(s@.take(i as int), sep),
        decreases s@.len() - i,
    {
        let b = s[i];
        let ghost before = pieces@.map_values(|l: Vec<u8>| l@);
        proof {
            assert(s@.take(i + 1).drop_last() =~= s@.take(i as int));
            assert(s@.take(i + 1).last() == b);
        }
        if b == sep {
            pieces.push(Vec::new());
            proof {
                assert(pieces@.map_values(|l: Vec<u8>| l@) =~= before.push(Seq::<u8>::empty()));
            }
        } else {
            let mut last = pieces.pop().unwrap();
            last.push(b);
            pieces.push(last);
            proof {
                assert(pieces@.map_values(|l: Vec<u8>| l@) =~= before.update(before.len() - 1, before.last().push(b)));
            }
        }
        i = i + 1;
    }
    proof {
        assert(s@.take(s@.len() as int) =~= s@);
    }
    pieces
}

/// Whether `s` is empty or holds only whitespace.
pub fn is_blank_chars(s: &[char]) -> (b: bool)
    ensures
        b == crate::identifiers::blank(s@),
{
    let mut i: usize = 0;
    while i < s.len()
        invariant
            i <= s@.len(),
            forall|j: int| 0 <= j < i ==> white_space(#[trigger] s@[j]),
        decreases s@.len() - i,
    {
        if !char_is_whitespace(s[i]) {
            return false;
        }
        i = i + 1;
    }
    true
}

/// The decimal digits of `value`, most significant first, without leading zeros.
pub open spec fn decimal_text(value: nat) -> Seq<char>
    decreases value,
{
    if value < 10 {
        seq![(48 + value) as char]
    } else {
        decimal_text(value / 10).push((48 + value % 10) as char)
    }
}

pub proof fn lemma_decimal_text(value: nat)
    ensures
        decimal_text(value).len() > 0,
        forall|i: int| 0 <= i < decimal_text(value).len() ==> is_digit(#[trigger] decimal_text(value)[i]),
        digits_value(decimal_text(value)) == value,
    decreases value,
{
    let text = decimal_text(value);
    assert('0' as int == 48);
    assert(digits_value(text) == digits_value(text.drop_last()) * 10 + (text.last() as int - '0' as int));
    if value < 10 {
        assert(text.drop_last() =~= Seq::<char>::empty());
        assert(text.last() as int == 48 + value);
    } else {
        lemma_decimal_text(value / 10);
        let head = decimal_text(value / 10);
        assert(text.drop_last() =~= head);
        assert(text.last() as int == 48 + value % 10);
        assert((value / 10) * 10 + value % 10 == value);
        assert forall|i: int| 0 <= i < text.len() implies is_digit(#[trigger] text[i]) by {
            if i < head.len() {
                assert(text[i] == head[i]);
            }
        }
    }
}

/// The text of the decimal digit `d`.
fn digit_text(d: u64) -> (text: &'static str)
    requires
        d < 10,
    ensures
        text@ == seq![(48 + d) as char],
{
    proof {
        reveal_strlit("0");
        reveal_strlit("1");
        reveal_strlit("2");
        reveal_strlit("3");
        reveal_strlit("4");
        reveal_strlit("5");
        reveal_strlit("6");
        reveal_strlit("7");
        reveal_strlit("8");
        reveal_strlit("9");
    }
    let text = match d {
        0 => "0",
        1 => "1",
        2 => "2",
        3 => "3",
        4 => "4",
        5 => "5",
        6 => "6",
        7 => "7",
        8 => "8",
        _ => "9",
    };
    proof {
        assert(text@ =~= seq![(48 + d) as char]);
    }
    text
}

/// Appends the decimal digits of `value` to `out`.
pub fn push_decimal(out: &mut String, value: u64)
    ensures
        final(out)@ == old(out)@ + decimal_text(value as nat),
    decreases value,
{
    if value >= 10 {
        push_decimal(out, value / 10);
    }
    out.append(digit_text(value % 10));
    proof {
        if value >= 10 {
            assert(old(out)@ + decimal_text(value as nat) =~= old(out)@ + decimal_text((value / 10) as nat)
                + seq![(48 + value % 10) as char]);
        } else {
            assert(decimal_text(value as nat) =~= seq![(48 + value % 10) as char]);
        }
    }
}


/// The lowercase hexadecimal digits of a code point below 128, without
/// leading zeros.
pub open spec fn hex_text(value: nat) -> Seq<char> {
    if value < 16 {
        seq![hex_lower(value as int)]
    } else {
        seq![hex_lower((value / 16) as int), hex_lower((value % 16) as int)]
    }
}

/// How `{:?}` writes one character inside a quoted string: the named escapes,
/// `\u{..}` for the other ASCII control characters, and every other character
/// as itself.
pub open spec fn debug_escape_char(c: char) -> Seq<char> {
    if c == '\0' {
        "\\0"@
    } else if c == '\t' {
        "\\t"@
    } else if c == '\r' {
        "\\r"@
    } else if c == '\n' {
        "\\n"@
    } else if c == '\\' {
        "\\\\"@
    } else if c == '"' {
        "\\\""@
    } else if (c as int) < 0x20 || (c as int) == 0x7f {
        "\\u{"@ + hex_text(c as nat) + "}"@
    } else {
        seq![c]
    }
}

/// The characters of `s`, each written as `debug_escape_char` says.
pub open spec fn debug_escaped(s: Seq<char>) -> Seq<char>
    decreases s.len(),
{
    if s.len() == 0 {
        Seq::empty()
    } else {
        debug_escaped(s.drop_last()) + debug_escape_char(s.last())
    }
}

/// The text of the hexadecimal digit `d`.
fn hex_digit_text(d: u32) -> (text: &'static str)
    requires
        d < 16,
    ensures
        text@ == seq![hex_lower(d as int)],
{
    proof {
        reveal_strlit("0");
        reveal_strlit("1");
        reveal_strlit("2");
        reveal_strlit("3");
        reveal_strlit("4");
        reveal_strlit("5");
        reveal_strlit("6");
        reveal_strlit("7");
        reveal_strlit("8");
        reveal_strlit("9");
        reveal_strlit("a");
        reveal_strlit("b");
        reveal_strlit("c");
        reveal_strlit("d");
        reveal_strlit("e");
        reveal_strlit("f");
    }
    let text = match d {
        0 => "0",
        1 => "1",
        2 => "2",
        3 => "3",
        4 => "4",
        5 => "5",
        6 => "6",
        7 => "7",
        8 => "8",
        9 => "9",
        10 => "a",
        11 => "b",
        12 => "c",
        13 => "d",
        14 => "e",
        _ => "f",
    };
    proof {
        assert(text@ =~= seq![hex_lower(d as int)]);
    }
    text
}

fn push_hex(out: &mut String, value: u32)
    requires
        value < 128,
    ensures
        final(out)@ == old(out)@ + hex_text(value as nat),
{
    if value < 16 {
        out.append(hex_digit_text(value));
        proof {
            assert(final(out)@ =~= old(out)@ + hex_text(value as nat));
        }
    } else {
        out.append(hex_digit_text(value / 16));
        out.append(hex_digit_text(value % 16));
        proof {
            assert(final(out)@ =~= old(out)@ + hex_text(value as nat));
        }
    }
}

/// Appends `c` as `debug_escape_char` writes it; `itself` is `c` as a text.
fn push_escaped_char(out: &mut String, c: char, itself: &str)
    requires
        itself@ == seq![c],
    ensures
        final(out)@ == old(out)@ + debug_escape_char(c),
{
    if c == '\0' {
        out.append("\\0");
    } else if c == '\t' {
        out.append("\\t");
    } else if c == '\r' {
        out.append("\\r");
    } else if c == '\n' {
        out.append("\\n");
    } else if c == '\\' {
        out.append("\\\\");
    } else if c == '"' {
        out.append("\\\"");
    } else if (c as u32) < 0x20 || (c as u32) == 0x7f {
        out.append("\\u{");
        push_hex(out, c as u32);
        out.append("}");
        proof {
            assert(final(out)@ =~= old(out)@ + debug_escape_char(c));
        }
    } else {
        out.append(itself);
    }
}

/// Appends the characters of `text` as `{:?}` writes them inside quotes.
pub fn push_escaped(out: &mut String, text: &str)
    ensures
        final(out)@ == old(out)@ + debug_escaped(text@),
{
    let ghost start = out@;
    let n = text.unicode_len();
    let mut i: usize = 0;
    while i < n
        invariant
            n == text@.len(),
            i <= n,
            out@ == start + debug_escaped(text@.take(i as int)),
        decreases n - i,
    {
        let c = text.get_char(i);
        let itself = text.substring_char(i, i + 1);
        proof {
            assert(itself@ =~= seq![c]);
        }
        push_escaped_char(out, c, itself);
        proof {
            assert(text@.take(i + 1).drop_last() =~= text@.take(i as int));
            assert(text@.take(i + 1).last() == c);
            assert(out@ =~= start + debug_escaped(text@.take(i + 1)));
        }
        i = i + 1;
    }
    proof {
        assert(text@.take(n as int) =~= text@);
    }
}

} // verus!
