//! Strings as sequences of characters: the searches, trims, splits and joins
//! that the rest of the library is stated with.

use vstd::prelude::*;

verus! {

/// `needle` stands in `text` at position `at`.
pub open spec fn occurs_at(text: Seq<char>, needle: Seq<char>, at: int) -> bool {
    &&& 0 <= at
    &&& at + needle.len() <= text.len()
    &&& text.subrange(at, at + needle.len()) == needle
}

/// `needle` stands somewhere in `text`.
pub open spec fn has_text(text: Seq<char>, needle: Seq<char>) -> bool {
    exists|at: int| occurs_at(text, needle, at)
}

/// `at` is the first position of `needle` in `text`.
pub open spec fn first_at(text: Seq<char>, needle: Seq<char>, at: int) -> bool {
    &&& occurs_at(text, needle, at)
    &&& forall|before: int| before < at ==> !occurs_at(text, needle, before)
}

/// `at` is the last position of `needle` in `text`.
pub open spec fn last_at(text: Seq<char>, needle: Seq<char>, at: int) -> bool {
    &&& occurs_at(text, needle, at)
    &&& forall|after: int| at < after ==> !occurs_at(text, needle, after)
}

/// The first position of `needle` in `text`, if there is one.
pub open spec fn first_position(text: Seq<char>, needle: Seq<char>) -> Option<int> {
    if has_text(text, needle) {
        Some(choose|at: int| first_at(text, needle, at))
    } else {
        None
    }
}

/// The last position of `needle` in `text`, if there is one.
pub open spec fn last_position(text: Seq<char>, needle: Seq<char>) -> Option<int> {
    if has_text(text, needle) {
        Some(choose|at: int| last_at(text, needle, at))
    } else {
        None
    }
}

/// `text` begins with `prefix`.
pub open spec fn starts_with(text: Seq<char>, prefix: Seq<char>) -> bool {
    occurs_at(text, prefix, 0)
}

/// `text` ends with `suffix`.
pub open spec fn ends_with(text: Seq<char>, suffix: Seq<char>) -> bool {
    occurs_at(text, suffix, text.len() - suffix.len())
}

/// The code points with the Unicode property `White_Space`.
pub open spec fn is_white(c: char) -> bool {
    ||| '\u{9}' <= c <= '\u{d}'
    ||| c == ' '
    ||| c == '\u{85}'
    ||| c == '\u{a0}'
    ||| c == '\u{1680}'
    ||| '\u{2000}' <= c <= '\u{200a}'
    ||| c == '\u{2028}'
    ||| c == '\u{2029}'
    ||| c == '\u{202f}'
    ||| c == '\u{205f}'
    ||| c == '\u{3000}'
}

pub open spec fn is_upper(c: char) -> bool {
    'A' <= c <= 'Z'
}

pub open spec fn is_digit(c: char) -> bool {
    '0' <= c <= '9'
}

/// An ASCII letter or digit.
pub open spec fn is_alnum(c: char) -> bool {
    is_digit(c) || is_upper(c) || 'a' <= c <= 'z'
}

/// An ASCII punctuation character: graphic, and neither letter nor digit.
pub open spec fn is_punct(c: char) -> bool {
    '!' <= c <= '~' && !is_alnum(c)
}

/// The classes of characters that trimming removes.
#[derive(Clone, Copy, Debug, PartialEq, Eq, Structural)]
pub enum CharClass {
    White,
    Punctuation,
    NotAlphanumeric,
}

pub open spec fn in_class(c: char, class: CharClass) -> bool {
    match class {
        CharClass::White => is_white(c),
        CharClass::Punctuation => is_punct(c),
        CharClass::NotAlphanumeric => !is_alnum(c),
    }
}

/// `s` without its longest prefix of characters of `class`.
pub open spec fn trim_start_of(s: Seq<char>, class: CharClass) -> Seq<char>
    decreases s.len(),
{
    if s.len() > 0 && in_class(s[0], class) {
        trim_start_of(s.skip(1), class)
    } else {
        s
    }
}

/// `s` without its longest suffix of characters of `class`.
pub open spec fn trim_end_of(s: Seq<char>, class: CharClass) -> Seq<char>
    decreases s.len(),
{
    if s.len() > 0 && in_class(s.last(), class) {
        trim_end_of(s.drop_last(), class)
    } else {
        s
    }
}

/// `s` without leading and trailing characters of `class`.
pub open spec fn trim_of(s: Seq<char>, class: CharClass) -> Seq<char> {
    trim_end_of(trim_start_of(s, class), class)
}

/// `s` without leading and trailing white space.
pub open spec fn trimmed(s: Seq<char>) -> Seq<char> {
    trim_of(s, CharClass::White)
}

pub open spec fn lower_char(c: char) -> char {
    if is_upper(c) {
        ((c as u32) + 32) as char
    } else {
        c
    }
}

/// `s` with the ASCII letters in lower case.
pub open spec fn lower(s: Seq<char>) -> Seq<char> {
    Seq::new(s.len(), |i: int| lower_char(s[i]))
}

/// How many characters stand before the first white space of `s`.
pub open spec fn word_len(s: Seq<char>) -> nat
    decreases s.len(),
{
    if s.len() == 0 || is_white(s[0]) {
        0
    } else {
        1 + word_len(s.skip(1))
    }
}

/// The maximal runs of characters without white space, in order.
pub open spec fn words(s: Seq<char>) -> Seq<Seq<char>>
    decreases s.len(),
{
    if s.len() == 0 {
        Seq::empty()
    } else if is_white(s[0]) {
        words(s.skip(1))
    } else if word_len(s) <= s.len() {
        seq![s.take(word_len(s) as int)] + words(s.skip(word_len(s) as int))
    } else {
        Seq::empty()
    }
}

/// The parts one after another, with `separator` between neighbours.
pub open spec fn joined(parts: Seq<Seq<char>>, separator: Seq<char>) -> Seq<char>
    decreases parts.len(),
{
    if parts.len() == 0 {
        Seq::empty()
    } else if parts.len() == 1 {
        parts[0]
    } else {
        joined(parts.drop_last(), separator) + separator + parts.last()
    }
}

/// The words of `s`, one space between neighbours.
pub open spec fn squeezed(s: Seq<char>) -> Seq<char> {
    joined(words(s), " "@)
}

/// `s` if it has at most `limit` characters; otherwise its first `limit - 3`
/// characters (none, if `limit` is less than three) and three dots.
pub open spec fn shortened(s: Seq<char>, limit: nat) -> Seq<char> {
    if s.len() <= limit {
        s
    } else {
        s.take(if limit >= 3 { limit - 3 } else { 0 }) + "..."@
    }
}

/// The contents of a list of strings.
pub open spec fn texts(strings: Seq<String>) -> Seq<Seq<char>> {
    Seq::new(strings.len(), |i: int| strings[i]@)
}

/// The contents of an optional string.
pub open spec fn opt_text(s: Option<String>) -> Option<Seq<char>> {
    match s {
        Some(s) => Some(s@),
        None => None,
    }
}

/// The character of a decimal digit.
pub open spec fn digit_char(d: nat) -> char {
    (('0' as u32) + d) as char
}

/// `n` in decimal, without leading zeros.
pub open spec fn decimal(n: nat) -> Seq<char>
    decreases n,
{
    if n < 10 {
        seq![digit_char(n)]
    } else {
        decimal(n / 10).push(digit_char(n % 10))
    }
}

/// What a string of decimal digits stands for.
pub open spec fn digits_value(s: Seq<char>) -> nat
    decreases s.len(),
{
    if s.len() == 0 {
        0
    } else {
        digits_value(s.drop_last()) * 10 + (s.last() as u32 - '0' as u32) as nat
    }
}

pub open spec fn all_digits(s: Seq<char>) -> bool {
    forall|i: int| 0 <= i < s.len() ==> is_digit(#[trigger] s[i])
}

/// The number that `s` writes, if it is at most `max`: one or more decimal
/// digits, with or without a plus sign before them.
pub open spec fn parsed(s: Seq<char>, max: nat) -> Option<nat> {
    let digits = if s.len() > 0 && s[0] == '+' { s.skip(1) } else { s };
    if digits.len() > 0 && all_digits(digits) && digits_value(digits) <= max {
        Some(digits_value(digits))
    } else {
        None
    }
}

/// `String::push` appends one character.
pub assume_specification[ std::string::String::push ](s: &mut std::string::String, c: char)
    ensures
        final(s)@ == old(s)@.push(c),
;

/// The characters of a string.
pub fn chars_of(text: &str) -> (chars: Vec<char>)
    ensures
        chars@ == text@,
{
    let mut chars: Vec<char> = Vec::new();
    for c in it: text.chars()
        invariant
            it.seq() == text@,
            chars@ == text@.take(it.index() as int),
    {
        chars.push(c);
    }
    assert(text@.take(text@.len() as int) =~= text@);
    chars
}

/// The string of the characters from `from` up to `to`.
pub fn string_of(chars: &Vec<char>, from: usize, to: usize) -> (text: String)
    requires
        from <= to <= chars@.len(),
    ensures
        text@ == chars@.subrange(from as int, to as int),
{
    let mut text = String::new();
    let mut i: usize = from;
    while i < to
        invariant
            from <= i <= to <= chars@.len(),
            text@ == chars@.subrange(from as int, i as int),
        decreases to - i,
    {
        text.push(chars[i]);
        i = i + 1;
    }
    text
}

fn occurs(text: &Vec<char>, needle: &Vec<char>, at: usize) -> (found: bool)
    requires
        at + needle@.len() <= text@.len(),
    ensures
        found == occurs_at(text@, needle@, at as int),
{
    let mut i: usize = 0;
    while i < needle.len()
        invariant
            i <= needle.len(),
            at + needle.len() <= text.len(),
            forall|j: int| 0 <= j < i ==> text@[at + j] == needle@[j],
        decreases needle@.len() - i,
    {
        if text[at + i] != needle[i] {
            assert(text@.subrange(at as int, at + needle@.len())[i as int] == text@[at + i]);
            return false;
        }
        i = i + 1;
    }
    assert(text@.subrange(at as int, at + needle@.len()) =~= needle@);
    true
}

/// The first position of `needle` in `text`.
pub fn find(text: &Vec<char>, needle: &Vec<char>) -> (position: Option<usize>)
    ensures
        match position {
            Some(at) => first_at(text@, needle@, at as int),
            None => !has_text(text@, needle@),
        },
{
    if needle.len() > text.len() {
        return None;
    }
    let last: usize = text.len() - needle.len();
    let mut at: usize = 0;
    loop
        invariant
            at <= last,
            last == text@.len() - needle@.len(),
            forall|before: int| before < at ==> !occurs_at(text@, needle@, before),
        decreases last - at,
    {
        if occurs(text, needle, at) {
            return Some(at);
        }
        if at == last {
            return None;
        }
        at = at + 1;
    }
}

/// The last position of `needle` in `text`.
pub fn rfind(text: &Vec<char>, needle: &Vec<char>) -> (position: Option<usize>)
    ensures
        match position {
            Some(at) => last_at(text@, needle@, at as int),
            None => !has_text(text@, needle@),
        },
{
    if needle.len() > text.len() {
        return None;
    }
    let mut at: usize = text.len() - needle.len();
    loop
        invariant
            at <= text@.len() - needle@.len(),
            forall|after: int| at < after ==> !occurs_at(text@, needle@, after),
        decreases at,
    {
        if occurs(text, needle, at) {
            return Some(at);
        }
        if at == 0 {
            return None;
        }
        at = at - 1;
    }
}

/// Whether `needle` stands in `text`.
pub fn contains(text: &str, needle: &str) -> (found: bool)
    ensures
        found == has_text(text@, needle@),
{
    find(&chars_of(text), &chars_of(needle)).is_some()
}

/// Whether `text` begins with `prefix`.
pub fn begins_with(text: &str, prefix: &str) -> (found: bool)
    ensures
        found == starts_with(text@, prefix@),
{
    let text_chars = chars_of(text);
    let prefix_chars = chars_of(prefix);
    prefix_chars.len() <= text_chars.len() && occurs(&text_chars, &prefix_chars, 0)
}

/// Whether `text` ends with `suffix`.
pub fn finishes_with(text: &str, suffix: &str) -> (found: bool)
    ensures
        found == ends_with(text@, suffix@),
{
    let text_chars = chars_of(text);
    let suffix_chars = chars_of(suffix);
    suffix_chars.len() <= text_chars.len() && occurs(
        &text_chars,
        &suffix_chars,
        text_chars.len() - suffix_chars.len(),
    )
}

/// Whether two strings hold the same characters.
pub fn same(a: &str, b: &str) -> (equal: bool)
    ensures
        equal == (a@ == b@),
{
    let a_chars = chars_of(a);
    let b_chars = chars_of(b);
    if a_chars.len() != b_chars.len() {
        return false;
    }
    assert(occurs_at(a@, b@, 0) == (a@ == b@)) by {
        assert(a@.subrange(0, b@.len() as int) =~= a@);
    }
    occurs(&a_chars, &b_chars, 0)
}

pub fn white(c: char) -> (found: bool)
    ensures
        found == is_white(c),
{
    ('\u{9}' <= c && c <= '\u{d}') || c == ' ' || c == '\u{85}' || c == '\u{a0}' || c == '\u{1680}'
        || ('\u{2000}' <= c && c <= '\u{200a}') || c == '\u{2028}' || c == '\u{2029}' || c
        == '\u{202f}' || c == '\u{205f}' || c == '\u{3000}'
}

/// Whether `c` is an ASCII letter or digit.
pub fn alphanumeric(c: char) -> (found: bool)
    ensures
        found == is_alnum(c),
{
    ('0' <= c && c <= '9') || ('A' <= c && c <= 'Z') || ('a' <= c && c <= 'z')
}

fn of_class(c: char, class: CharClass) -> (found: bool)
    ensures
        found == in_class(c, class),
{
    match class {
        CharClass::White => white(c),
        CharClass::Punctuation => '!' <= c && c <= '~' && !alphanumeric(c),
        CharClass::NotAlphanumeric => !alphanumeric(c),
    }
}

/// Where `chars` begins once leading characters of `class` are gone.
fn trimmed_from(chars: &Vec<char>, class: CharClass) -> (start: usize)
    ensures
        start <= chars@.len(),
        trim_start_of(chars@, class) == chars@.skip(start as int),
{
    let mut start: usize = 0;
    assert(chars@.skip(0) =~= chars@);
    while start < chars.len() && of_class(chars[start], class)
        invariant
            start <= chars@.len(),
            trim_start_of(chars@, class) == trim_start_of(chars@.skip(start as int), class),
        decreases chars@.len() - start,
    {
        assert(chars@.skip(start as int).skip(1) =~= chars@.skip(start + 1));
        start = start + 1;
    }
    start
}

/// Where `chars` ends once trailing characters of `class` are gone, from `start` on.
fn trimmed_to(chars: &Vec<char>, start: usize, class: CharClass) -> (end: usize)
    requires
        start <= chars@.len(),
    ensures
        start <= end <= chars@.len(),
        trim_end_of(chars@.skip(start as int), class) == chars@.subrange(start as int, end as int),
{
    let mut end: usize = chars.len();
    assert(chars@.skip(start as int) =~= chars@.subrange(start as int, end as int));
    while end > start && of_class(chars[end - 1], class)
        invariant
            start <= end <= chars@.len(),
            trim_end_of(chars@.skip(start as int), class) == trim_end_of(
                chars@.subrange(start as int, end as int),
                class,
            ),
        decreases end,
    {
        assert(chars@.subrange(start as int, end as int).drop_last() =~= chars@.subrange(
            start as int,
            end - 1,
        ));
        end = end - 1;
    }
    end
}

/// `text` without leading and trailing characters of `class`.
pub fn trim_class(text: &str, class: CharClass) -> (result: String)
    ensures
        result@ == trim_of(text@, class),
{
    let chars = chars_of(text);
    let start = trimmed_from(&chars, class);
    let end = trimmed_to(&chars, start, class);
    string_of(&chars, start, end)
}

/// `text` without leading and trailing white space.
pub fn trim(text: &str) -> (result: String)
    ensures
        result@ == trimmed(text@),
{
    trim_class(text, CharClass::White)
}

/// `text` without leading white space.
pub fn trim_start(text: &str) -> (result: String)
    ensures
        result@ == trim_start_of(text@, CharClass::White),
{
    let chars = chars_of(text);
    let start = trimmed_from(&chars, CharClass::White);
    assert(chars@.skip(start as int) =~= chars@.subrange(start as int, chars@.len() as int));
    string_of(&chars, start, chars.len())
}

/// Whether `text` holds nothing but white space.
pub fn is_blank(text: &str) -> (blank: bool)
    ensures
        blank == (trimmed(text@).len() == 0),
{
    trim(text).as_str().is_empty()
}

fn lowered(c: char) -> (result: char)
    ensures
        result == lower_char(c),
{
    if 'A' <= c && c <= 'Z' {
        ((c as u8) + 32) as char
    } else {
        c
    }
}

/// `text` with the ASCII letters in lower case.
pub fn to_lower(text: &str) -> (result: String)
    ensures
        result@ == lower(text@),
{
    let chars = chars_of(text);
    let mut result = String::new();
    let mut i: usize = 0;
    while i < chars.len()
        invariant
            i <= chars@.len(),
            result@ == lower(chars@.take(i as int)),
        decreases chars@.len() - i,
    {
        result.push(lowered(chars[i]));
        assert(lower(chars@.take(i + 1)) =~= lower(chars@.take(i as int)).push(
            lower_char(chars@[i as int]),
        ));
        i = i + 1;
    }
    assert(chars@.take(chars@.len() as int) =~= chars@);
    result
}

/// Whether two strings are the same up to the case of ASCII letters.
pub fn same_ignoring_case(a: &str, b: &str) -> (equal: bool)
    ensures
        equal == (lower(a@) == lower(b@)),
{
    same(&to_lower(a), &to_lower(b))
}

/// A word reaches no further than the text.
pub(crate) proof fn lemma_word_len(s: Seq<char>)
    ensures
        word_len(s) <= s.len(),
        forall|i: int| 0 <= i < word_len(s) ==> !is_white(#[trigger] s[i]),
        word_len(s) < s.len() ==> is_white(s[word_len(s) as int]),
    decreases s.len(),
{
    if s.len() > 0 && !is_white(s[0]) {
        lemma_word_len(s.skip(1));
        assert forall|i: int| 0 <= i < word_len(s) implies !is_white(#[trigger] s[i]) by {
            if i > 0 {
                assert(s[i] == s.skip(1)[i - 1]);
            }
        }
    }
}

/// Where the first word of the rest ends.
fn word_end(chars: &Vec<char>, start: usize) -> (end: usize)
    requires
        start <= chars@.len(),
    ensures
        start <= end <= chars@.len(),
        end - start == word_len(chars@.skip(start as int)),
{
    let mut end: usize = start;
    while end < chars.len() && !white(chars[end])
        invariant
            start <= end <= chars@.len(),
            word_len(chars@.skip(start as int)) == (end - start) + word_len(chars@.skip(end as int)),
        decreases chars@.len() - end,
    {
        assert(chars@.skip(end as int).skip(1) =~= chars@.skip(end + 1));
        end = end + 1;
    }
    end
}

/// The words of `text`, in order.
pub fn split_words(text: &str) -> (result: Vec<String>)
    ensures
        texts(result@) == words(text@),
{
    let chars = chars_of(text);
    let mut result: Vec<String> = Vec::new();
    let mut at: usize = 0;
    assert(chars@.skip(0) =~= chars@);
    assert(texts(result@) + words(chars@.skip(0)) =~= words(chars@));
    while at < chars.len()
        invariant
            at <= chars@.len(),
            texts(result@) + words(chars@.skip(at as int)) == words(chars@),
        decreases chars@.len() - at,
    {
        let ghost rest = chars@.skip(at as int);
        if white(chars[at]) {
            assert(rest.skip(1) =~= chars@.skip(at + 1));
            at = at + 1;
        } else {
            let end = word_end(&chars, at);
            proof {
                lemma_word_len(rest);
                assert(word_len(rest) > 0);
                assert(rest.take(word_len(rest) as int) =~= chars@.subrange(at as int, end as int));
                assert(rest.skip(word_len(rest) as int) =~= chars@.skip(end as int));
            }
            let ghost before = texts(result@);
            result.push(string_of(&chars, at, end));
            assert(texts(result@) =~= before.push(chars@.subrange(at as int, end as int)));
            assert(texts(result@) + words(chars@.skip(end as int)) =~= before + words(rest));
            at = end;
        }
    }
    assert(texts(result@) =~= words(chars@));
    result
}

/// The parts one after another, with `separator` between neighbours.
pub fn join(parts: &Vec<String>, separator: &str) -> (result: String)
    ensures
        result@ == joined(texts(parts@), separator@),
{
    let mut result = String::new();
    let ghost all = texts(parts@);
    let mut i: usize = 0;
    while i < parts.len()
        invariant
            i <= parts@.len(),
            all == texts(parts@),
            result@ == joined(all.take(i as int), separator@),
        decreases parts@.len() - i,
    {
        assert(all.take(i + 1).drop_last() =~= all.take(i as int));
        if i > 0 {
            result.append(separator);
        }
        result.append(parts[i].as_str());
        i = i + 1;
    }
    assert(all.take(all.len() as int) =~= all);
    result
}

/// The words of `text`, one space between neighbours.
pub fn squeeze(text: &str) -> (result: String)
    ensures
        result@ == squeezed(text@),
{
    join(&split_words(text), " ")
}

/// How many characters `text` has.
pub fn char_count(text: &str) -> (count: usize)
    ensures
        count == text@.len(),
{
    text.unicode_len()
}

/// The first `count` characters of `text`, or all of it if it has fewer.
pub fn first_chars(text: &str, count: usize) -> (result: String)
    ensures
        result@ == text@.take(if count <= text@.len() { count as int } else { text@.len() as int }),
{
    let chars = chars_of(text);
    let end = if count <= chars.len() { count } else { chars.len() };
    string_of(&chars, 0, end)
}

/// The characters of `text` from position `from` on.
pub fn rest_from(text: &str, from: usize) -> (result: String)
    requires
        from <= text@.len(),
    ensures
        result@ == text@.skip(from as int),
{
    let chars = chars_of(text);
    assert(chars@.skip(from as int) =~= chars@.subrange(from as int, chars@.len() as int));
    string_of(&chars, from, chars.len())
}

/// `text`, shortened to `limit` characters where it has more.
pub fn shorten(text: &str, limit: usize) -> (result: String)
    ensures
        result@ == shortened(text@, limit as nat),
{
    let count = char_count(text);
    if count <= limit {
        return text.to_owned();
    }
    let mut result = first_chars(text, if limit >= 3 { limit - 3 } else { 0 });
    result.append("...");
    result
}

/// What follows `prefix`, if `text` begins with it.
pub fn after_prefix(text: &str, prefix: &str) -> (rest: Option<String>)
    ensures
        match rest {
            Some(rest) => starts_with(text@, prefix@) && rest@ == text@.skip(prefix@.len() as int),
            None => !starts_with(text@, prefix@),
        },
{
    if begins_with(text, prefix) {
        Some(rest_from(text, char_count(prefix)))
    } else {
        None
    }
}

/// First positions are unique.
pub proof fn lemma_first_position(text: Seq<char>, needle: Seq<char>, at: int)
    requires
        first_at(text, needle, at),
    ensures
        first_position(text, needle) == Some(at),
{
    let chosen = choose|at: int| first_at(text, needle, at);
    assert(first_at(text, needle, chosen));
    if chosen < at {
        assert(!occurs_at(text, needle, chosen));
    }
    if at < chosen {
        assert(!occurs_at(text, needle, at));
    }
}

/// Last positions are unique.
pub proof fn lemma_last_position(text: Seq<char>, needle: Seq<char>, at: int)
    requires
        last_at(text, needle, at),
    ensures
        last_position(text, needle) == Some(at),
{
    let chosen = choose|at: int| last_at(text, needle, at);
    assert(last_at(text, needle, chosen));
    if chosen < at {
        assert(!occurs_at(text, needle, at));
    }
    if at < chosen {
        assert(!occurs_at(text, needle, chosen));
    }
}

/// An optional position as a number of the mathematical kind.
pub open spec fn opt_int(position: Option<usize>) -> Option<int> {
    match position {
        Some(at) => Some(at as int),
        None => None,
    }
}

/// The first position of `needle` in `text`.
pub fn position_of(text: &str, needle: &str) -> (position: Option<usize>)
    ensures
        opt_int(position) == first_position(text@, needle@),
        position matches Some(at) ==> occurs_at(text@, needle@, at as int),
{
    let position = find(&chars_of(text), &chars_of(needle));
    proof {
        if let Some(at) = position {
            lemma_first_position(text@, needle@, at as int);
        }
    }
    position
}

/// The last position of `needle` in `text`.
pub fn last_position_of(text: &str, needle: &str) -> (position: Option<usize>)
    ensures
        opt_int(position) == last_position(text@, needle@),
        position matches Some(at) ==> occurs_at(text@, needle@, at as int),
{
    let position = rfind(&chars_of(text), &chars_of(needle));
    proof {
        if let Some(at) = position {
            lemma_last_position(text@, needle@, at as int);
        }
    }
    position
}

fn digit_of(d: u64) -> (c: char)
    requires
        d < 10,
    ensures
        c == digit_char(d as nat),
{
    (48 + (d as u8)) as char
}

/// `n` in decimal.
pub fn decimal_of(n: u64) -> (result: String)
    ensures
        result@ == decimal(n as nat),
    decreases n,
{
    if n < 10 {
        let mut result = String::new();
        result.push(digit_of(n));
        result
    } else {
        let mut result = decimal_of(n / 10);
        result.push(digit_of(n % 10));
        result
    }
}

/// Reads a number of decimal digits, with or without a plus sign before them.
pub fn parse_u64(text: &str) -> (result: Option<u64>)
    ensures
        match result {
            Some(n) => parsed(text@, u64::MAX as nat) == Some(n as nat),
            None => parsed(text@, u64::MAX as nat) is None,
        },
{
    let chars = chars_of(text);
    let start: usize = if chars.len() > 0 && chars[0] == '+' { 1 } else { 0 };
    let ghost digits = if text@.len() > 0 && text@[0] == '+' { text@.skip(1) } else { text@ };
    assert(digits =~= chars@.skip(start as int));
    if start == chars.len() {
        return None;
    }
    let mut value: u64 = 0;
    let mut i: usize = start;
    assert(digits.take(0) =~= Seq::<char>::empty());
    while i < chars.len()
        invariant
            start <= i <= chars@.len(),
            digits == chars@.skip(start as int),
            digits == (if text@.len() > 0 && text@[0] == '+' { text@.skip(1) } else { text@ }),
            all_digits(digits.take(i - start)),
            value == digits_value(digits.take(i - start)),
        decreases chars@.len() - i,
    {
        let c = chars[i];
        assert(c == digits[i - start]);
        if !('0' <= c && c <= '9') {
            return None;
        }
        let digit: u64 = ((c as u8) - 48) as u64;
        let ghost longer = digits.take(i - start + 1);
        assert(longer.drop_last() =~= digits.take(i - start));
        assert(digits_value(longer) == value * 10 + digit);
        assert(all_digits(longer)) by {
            assert forall|j: int| 0 <= j < longer.len() implies is_digit(#[trigger] longer[j]) by {
                if j < i - start {
                    assert(longer[j] == digits.take(i - start)[j]);
                }
            }
        }
        if value > (u64::MAX - digit) / 10 {
            proof {
                lemma_digits_value_grows(digits, i - start + 1);
            }
            return None;
        }
        value = value * 10 + digit;
        i = i + 1;
    }
    assert(digits.take(digits.len() as int) =~= digits);
    Some(value)
}

/// Further digits make a number no smaller.
proof fn lemma_digits_value_grows(s: Seq<char>, n: int)
    requires
        0 <= n <= s.len(),
    ensures
        digits_value(s.take(n)) <= digits_value(s),
    decreases s.len(),
{
    if n == s.len() {
        assert(s.take(n) =~= s);
    } else {
        lemma_digits_value_grows(s.drop_last(), n);
        assert(s.drop_last().take(n) =~= s.take(n));
    }
}

/// The number that `s` writes, if it has sixteen bits: decimal digits, with or
/// without a sign before them.
pub open spec fn parsed_i16(s: Seq<char>) -> Option<i16> {
    if s.len() > 0 && s[0] == '-' {
        let digits = s.skip(1);
        if digits.len() > 0 && all_digits(digits) && digits_value(digits) <= 32_768 {
            Some((-(digits_value(digits) as int)) as i16)
        } else {
            None
        }
    } else {
        match parsed(s, i16::MAX as nat) {
            Some(n) => Some(n as i16),
            None => None,
        }
    }
}

/// Reads a number of sixteen bits, with or without a sign before it.
pub fn parse_i16(text: &str) -> (result: Option<i16>)
    ensures
        result == parsed_i16(text@),
{
    let chars = chars_of(text);
    if chars.len() > 0 && chars[0] == '-' {
        let rest = rest_from(text, 1);
        let rest_chars = chars_of(rest.as_str());
        assert(rest@ =~= text@.skip(1));
        if rest_chars.len() == 0 {
            return None;
        }
        if rest_chars[0] == '+' {
            assert(!is_digit(rest@[0]));
            return None;
        }
        return match parse_u64(rest.as_str()) {
            Some(n) => if n <= 32_768 {
                let value: i32 = -(n as i32);
                Some(value as i16)
            } else {
                None
            },
            None => None,
        };
    }
    match parse_u64(text) {
        Some(n) => if n <= 32_767 {
            Some(n as i16)
        } else {
            None
        },
        None => None,
    }
}

/// How far the first line reaches.
pub open spec fn line_len(s: Seq<char>) -> nat
    decreases s.len(),
{
    if s.len() == 0 || s[0] == '\n' {
        0
    } else {
        1 + line_len(s.skip(1))
    }
}

/// A line without the carriage return that ends it.
pub open spec fn without_return(s: Seq<char>) -> Seq<char> {
    if s.len() > 0 && s.last() == '\r' {
        s.drop_last()
    } else {
        s
    }
}

/// The lines of `s`. A line ends with a line feed, with or without a carriage
/// return before it; the last one may go without.
pub open spec fn lines(s: Seq<char>) -> Seq<Seq<char>>
    decreases s.len(),
{
    if s.len() == 0 {
        Seq::empty()
    } else if line_len(s) >= s.len() {
        seq![s]
    } else {
        seq![without_return(s.take(line_len(s) as int))] + lines(s.skip(line_len(s) as int + 1))
    }
}

fn line_end(chars: &Vec<char>, start: usize) -> (end: usize)
    requires
        start <= chars@.len(),
    ensures
        start <= end <= chars@.len(),
        end - start == line_len(chars@.skip(start as int)),
{
    let mut end: usize = start;
    while end < chars.len() && chars[end] != '\n'
        invariant
            start <= end <= chars@.len(),
            line_len(chars@.skip(start as int)) == (end - start) + line_len(chars@.skip(end as int)),
        decreases chars@.len() - end,
    {
        assert(chars@.skip(end as int).skip(1) =~= chars@.skip(end + 1));
        end = end + 1;
    }
    end
}

/// The lines of `text`, in order.
pub fn split_lines(text: &str) -> (result: Vec<String>)
    ensures
        texts(result@) == lines(text@),
{
    let chars = chars_of(text);
    let mut result: Vec<String> = Vec::new();
    let mut at: usize = 0;
    assert(chars@.skip(0) =~= chars@);
    assert(texts(result@) + lines(chars@) =~= lines(chars@));
    while at < chars.len()
        invariant
            at <= chars@.len(),
            chars@ == text@,
            texts(result@) + lines(chars@.skip(at as int)) == lines(chars@),
        decreases chars@.len() - at,
    {
        let ghost rest = chars@.skip(at as int);
        let ghost before = texts(result@);
        let end = line_end(&chars, at);
        if end == chars.len() {
            result.push(string_of(&chars, at, end));
            assert(chars@.subrange(at as int, end as int) =~= rest);
            assert(texts(result@) =~= before.push(rest));
            assert(before + lines(rest) =~= texts(result@));
            return result;
        }
        let ghost line = rest.take(line_len(rest) as int);
        assert(line =~= chars@.subrange(at as int, end as int));
        let stop = if end > at && chars[end - 1] == '\r' {
            end - 1
        } else {
            end
        };
        result.push(string_of(&chars, at, stop));
        proof {
            if end > at {
                assert(line.last() == chars@[end - 1]);
            }
            assert(without_return(line) =~= chars@.subrange(at as int, stop as int));
            assert(rest.skip(line_len(rest) as int + 1) =~= chars@.skip(end + 1));
            assert(texts(result@) =~= before.push(without_return(line)));
            assert(texts(result@) + lines(chars@.skip(end + 1)) =~= before + lines(rest));
        }
        at = end + 1;
    }
    assert(chars@.skip(at as int) =~= Seq::<char>::empty());
    assert(texts(result@) =~= lines(chars@));
    result
}

/// Two texts one after the other.
pub fn concat(a: &str, b: &str) -> (result: String)
    ensures
        result@ == a@ + b@,
{
    let mut result = a.to_owned();
    result.append(b);
    result
}

/// A number that is written in decimal digits is read back, with or without a
/// plus sign; nothing that is no row of digits is read as a number, and none
/// above the limit.
pub proof fn lemma_number_is_read_back(n: nat, max: nat)
    ensures
        n <= max ==> parsed(decimal(n), max) == Some(n),
        n <= max ==> parsed(seq!['+'] + decimal(n), max) == Some(n),
        n > max ==> parsed(decimal(n), max) is None,
        decimal(n).len() > 0,
        all_digits(decimal(n)),
        digits_value(decimal(n)) == n,
        n > 0 ==> decimal(n)[0] != '0',
        n < 10 ==> decimal(n).len() == 1,
{
    lemma_decimal(n);
    let s = decimal(n);
    assert(s[0] != '+');
    let signed = seq!['+'] + s;
    assert(signed.skip(1) =~= s);
}

proof fn lemma_decimal(n: nat)
    ensures
        decimal(n).len() > 0,
        all_digits(decimal(n)),
        digits_value(decimal(n)) == n,
        n > 0 ==> decimal(n)[0] != '0',
    decreases n,
{
    let s = decimal(n);
    if n < 10 {
        assert(s.drop_last() =~= Seq::<char>::empty());
        assert(digits_value(s.drop_last()) == 0);
        assert(s.last() == digit_char(n));
    } else {
        lemma_decimal(n / 10);
        assert(s.drop_last() =~= decimal(n / 10));
        assert(s.last() == digit_char(n % 10));
        assert forall|i: int| 0 <= i < s.len() implies is_digit(#[trigger] s[i]) by {
            if i < s.len() - 1 {
                assert(s[i] == decimal(n / 10)[i]);
            }
        }
        assert(s[0] == decimal(n / 10)[0]);
    }
}

/// Text that holds something other than digits, behind a plus sign that may
/// come first, is no number.
pub proof fn lemma_only_digits_are_a_number(s: Seq<char>, i: int, max: nat)
    requires
        0 <= i < s.len(),
        !('0' <= s[i] <= '9'),
        i > 0 || s[0] != '+',
    ensures
        parsed(s, max) is None,
{
    if s[0] == '+' {
        assert(s.skip(1)[i - 1] == s[i]);
    }
}

/// Text of at most so many characters stays as it is; longer text is cut to that
/// many, the last three of which are dots.
pub proof fn lemma_long_text_is_cut(s: Seq<char>, limit: nat, i: int)
    requires
        limit >= 3,
    ensures
        s.len() <= limit ==> shortened(s, limit) == s,
        s.len() > limit ==> shortened(s, limit).len() == limit,
        s.len() > limit && 0 <= i < limit - 3 ==> shortened(s, limit)[i] == s[i],
        s.len() > limit && limit - 3 <= i < limit ==> shortened(s, limit)[i] == '.',
{
    reveal_strlit("...");
}

/// The lines of a text are what stands between its line ends; a return before a
/// line end is not part of the line.
pub proof fn lemma_lines_of_a_text(line: Seq<char>, rest: Seq<char>)
    requires
        forall|i: int| 0 <= i < line.len() ==> #[trigger] line[i] != '\n',
    ensures
        lines(line + seq!['\n'] + rest) == seq![without_return(line)] + lines(rest),
        line.len() > 0 ==> lines(line) == seq![line],
        lines(Seq::empty()) == Seq::<Seq<char>>::empty(),
{
    let whole = line + seq!['\n'] + rest;
    assert(whole[line.len() as int] == '\n');
    lemma_line_len(whole, line.len() as int);
    assert(whole.take(line.len() as int) =~= line);
    assert(whole.skip(line.len() as int + 1) =~= rest);
    if line.len() > 0 {
        lemma_line_len(line, line.len() as int);
    }
}

proof fn lemma_line_len(s: Seq<char>, n: int)
    requires
        0 <= n <= s.len(),
        forall|i: int| 0 <= i < n ==> #[trigger] s[i] != '\n',
        n < s.len() ==> s[n] == '\n',
    ensures
        line_len(s) == n,
    decreases s.len(),
{
    if n > 0 {
        let rest = s.skip(1);
        assert forall|i: int| 0 <= i < n - 1 implies #[trigger] rest[i] != '\n' by {
            assert(rest[i] == s[i + 1]);
        }
        lemma_line_len(rest, n - 1);
    }
}

/// Parts that are joined stand one after another with the separator between
/// neighbours.
pub proof fn lemma_joined_grows(parts: Seq<Seq<char>>, next: Seq<char>, separator: Seq<char>)
    ensures
        joined(Seq::empty(), separator) == Seq::<char>::empty(),
        joined(seq![next], separator) == next,
        parts.len() > 0 ==> joined(parts.push(next), separator) == joined(parts, separator)
            + separator + next,
{
    assert(parts.push(next).drop_last() =~= parts);
}

/// In lower case only the letters from `A` to `Z` change, each to its small one.
pub proof fn lemma_lower_case(s: Seq<char>, i: int)
    requires
        0 <= i < s.len(),
    ensures
        lower(s).len() == s.len(),
        !('A' <= s[i] <= 'Z') ==> lower(s)[i] == s[i],
        'A' <= s[i] <= 'Z' ==> 'a' <= lower(s)[i] <= 'z' && lower(s)[i] as int - 'a' as int
            == s[i] as int - 'A' as int,
{
}

/// A part stands where its characters stand, one by one.
pub proof fn lemma_part_stands_in_the_text(
    before: Seq<char>,
    part: Seq<char>,
    after: Seq<char>,
    text: Seq<char>,
    at: int,
    i: int,
)
    ensures
        occurs_at(before + part + after, part, before.len() as int),
        has_text(before + part + after, part),
        starts_with(part + after, part),
        ends_with(before + part, part),
        occurs_at(text, part, at) && 0 <= i < part.len() ==> 0 <= at && at + i < text.len()
            && text[at + i] == part[i],
        starts_with(text, part) && 0 <= i < part.len() ==> i < text.len() && text[i] == part[i],
        ends_with(text, part) && 0 <= i < part.len() ==> i < text.len() && text[text.len() - 1 - i]
            == part[part.len() - 1 - i],
{
    let whole = before + part + after;
    let n = before.len() as int;
    assert(whole.subrange(n, n + part.len()) =~= part);
    assert(occurs_at(whole, part, n));
    assert((part + after).subrange(0, part.len() as int) =~= part);
    let ended = before + part;
    assert(ended.subrange(n, n + part.len()) =~= part);
    if 0 <= i < part.len() {
        if occurs_at(text, part, at) {
            assert(text.subrange(at, at + part.len())[i] == text[at + i]);
        }
        if starts_with(text, part) {
            assert(text.subrange(0, part.len() as int)[i] == text[i]);
        }
        if ends_with(text, part) {
            let from = text.len() - part.len();
            let j = part.len() - 1 - i;
            assert(text.subrange(from, from + part.len())[j] == text[from + j]);
        }
    }
}

/// Nothing is found before the first position of a part, and nothing behind its
/// last.
pub proof fn lemma_first_and_last_position(text: Seq<char>, part: Seq<char>, at: int, other: int)
    requires
        occurs_at(text, part, other),
    ensures
        first_at(text, part, at) ==> occurs_at(text, part, at) && at <= other,
        last_at(text, part, at) ==> occurs_at(text, part, at) && other <= at,
        (forall|i: int| #[trigger] occurs_at(text, part, i) ==> other <= i) ==> first_at(
            text,
            part,
            other,
        ),
        (forall|i: int| #[trigger] occurs_at(text, part, i) ==> i <= other) ==> last_at(
            text,
            part,
            other,
        ),
{
}

/// The white characters are the tabulator, the line ends, the space and the
/// spaces of other scripts, by their numbers.
pub proof fn lemma_white_characters(c: char)
    ensures
        is_white(c) <==> {
            let n = c as int;
            9 <= n <= 13 || n == 32 || n == 133 || n == 160 || n == 5_760 || 8_192 <= n <= 8_202 || n
                == 8_232 || n == 8_233 || n == 8_239 || n == 8_287 || n == 12_288
        },
{
}

/// Letters and digits are those of ASCII, and punctuation is what else can be
/// seen there.
pub proof fn lemma_kinds_of_characters(c: char)
    ensures
        is_digit(c) <==> 48 <= c as int <= 57,
        is_upper(c) <==> 65 <= c as int <= 90,
        is_alnum(c) <==> 48 <= c as int <= 57 || 65 <= c as int <= 90 || 97 <= c as int <= 122,
        is_punct(c) <==> 33 <= c as int <= 47 || 58 <= c as int <= 64 || 91 <= c as int <= 96 || 123
            <= c as int <= 126,
        in_class(c, CharClass::White) == is_white(c),
        in_class(c, CharClass::Punctuation) == is_punct(c),
        in_class(c, CharClass::NotAlphanumeric) != is_alnum(c),
{
}

/// Trimming leaves what stands between the first and the last character that is
/// not of the class.
pub proof fn lemma_trimming_leaves_the_core(
    before: Seq<char>,
    core: Seq<char>,
    after: Seq<char>,
    class: CharClass,
)
    requires
        forall|i: int| 0 <= i < before.len() ==> in_class(#[trigger] before[i], class),
        forall|i: int| 0 <= i < after.len() ==> in_class(#[trigger] after[i], class),
    ensures
        core.len() > 0 && !in_class(core[0], class) && !in_class(core.last(), class) ==> trim_of(
            before + core + after,
            class,
        ) == core,
        trim_of(before, class).len() == 0,
        core.len() > 0 && !in_class(core[0], class) ==> trim_start_of(before + core, class) == core,
        core.len() > 0 && !in_class(core.last(), class) ==> trim_end_of(core + after, class) == core,
{
    lemma_start_is_trimmed(before, core, class);
    lemma_start_is_trimmed(before, core + after, class);
    lemma_start_is_trimmed(before, Seq::empty(), class);
    lemma_end_is_trimmed(core, after, class);
    assert(before + core + after =~= before + (core + after));
    assert(before + Seq::<char>::empty() =~= before);
    if core.len() > 0 {
        assert((core + after)[0] == core[0]);
    }
}

proof fn lemma_start_is_trimmed(before: Seq<char>, core: Seq<char>, class: CharClass)
    requires
        forall|i: int| 0 <= i < before.len() ==> in_class(#[trigger] before[i], class),
    ensures
        core.len() == 0 || !in_class(core[0], class) ==> trim_start_of(before + core, class) == core,
    decreases before.len(),
{
    let s = before + core;
    if before.len() == 0 {
        assert(s =~= core);
    } else {
        let rest = before.skip(1);
        assert(forall|i: int| 0 <= i < rest.len() ==> #[trigger] rest[i] == before[i + 1]);
        lemma_start_is_trimmed(rest, core, class);
        assert(s[0] == before[0]);
        assert(s.skip(1) =~= rest + core);
    }
}

proof fn lemma_end_is_trimmed(core: Seq<char>, after: Seq<char>, class: CharClass)
    requires
        forall|i: int| 0 <= i < after.len() ==> in_class(#[trigger] after[i], class),
    ensures
        core.len() == 0 || !in_class(core.last(), class) ==> trim_end_of(core + after, class) == core,
    decreases after.len(),
{
    let s = core + after;
    if after.len() == 0 {
        assert(s =~= core);
    } else {
        let rest = after.drop_last();
        assert(forall|i: int| 0 <= i < rest.len() ==> #[trigger] rest[i] == after[i]);
        lemma_end_is_trimmed(core, rest, class);
        assert(s.last() == after.last());
        assert(s.drop_last() =~= core + rest);
    }
}

/// A number with a sign before it is read back within sixteen bits, and no other.
pub proof fn lemma_signed_number_is_read_back(n: nat)
    ensures
        n <= 32_767 ==> parsed_i16(decimal(n)) == Some(n as i16),
        n > 32_767 ==> parsed_i16(decimal(n)) is None,
        n <= 32_768 ==> parsed_i16(seq!['-'] + decimal(n)) == Some((-(n as int)) as i16),
        n > 32_768 ==> parsed_i16(seq!['-'] + decimal(n)) is None,
        parsed_i16(seq!['-']) is None,
        parsed_i16(Seq::empty()) is None,
{
    lemma_number_is_read_back(n, i16::MAX as nat);
    assert((seq!['-'] + decimal(n)).skip(1) =~= decimal(n));
    assert(is_digit(decimal(n)[0]));
}

/// A return that ends a line is taken off, and nothing else is.
pub proof fn lemma_return_is_taken_off(s: Seq<char>)
    ensures
        without_return(s + seq!['\r']) == s,
        s.len() > 0 && s.last() != '\r' ==> without_return(s) == s,
        without_return(Seq::empty()) == Seq::<char>::empty(),
{
    assert((s + seq!['\r']).drop_last() =~= s);
}

} // verus!
