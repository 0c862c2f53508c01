//! What the user asked for: the words of a transcript and the wishes in them.

use vstd::prelude::*;

use crate::spacing::{
    all_white, lemma_first_word, lemma_one_word, lemma_outer_blanks, lemma_trimmed_is_the_core,
    lemma_white_has_no_words, lemma_wider_gaps, lemma_words_of_two, no_white,
};
use crate::text::{
    contains, first_at, first_position, has_text, in_class, is_alnum, is_punct, is_white, joined,
    last_at, last_position, last_position_of, lemma_first_position, lemma_last_position, lower,
    lower_char, occurs_at, opt_text, position_of, rest_from, same, split_words, squeezed,
    starts_with, texts, to_lower, trim, trim_class, trim_end_of, trim_of, trim_start, trim_start_of,
    trimmed, word_len, words, CharClass,
};

verus! {

/// A spoken word: without what is not a letter or digit at its ends, in lower case.
pub open spec fn voice_token(word: Seq<char>) -> Seq<char> {
    lower(trim_of(word, CharClass::NotAlphanumeric))
}

/// The spoken words of a transcript.
pub open spec fn voice_words(transcript: Seq<char>) -> Seq<Seq<char>> {
    words(transcript).map_values(|word: Seq<char>| voice_token(word))
}

/// The word is among the words.
pub open spec fn has_word(words: Seq<Seq<char>>, word: Seq<char>) -> bool {
    exists|i: int| 0 <= i < words.len() && #[trigger] words[i] == word
}

/// A word without what is not a letter or digit at its ends, in lower case.
pub fn normalize_voice_token(token: &str) -> (result: String)
    ensures
        result@ == voice_token(token@),
{
    to_lower(trim_class(token, CharClass::NotAlphanumeric).as_str())
}

/// The spoken words of a transcript.
pub fn spoken_words(transcript: &str) -> (result: Vec<String>)
    ensures
        texts(result@) == voice_words(transcript@),
{
    let raw = split_words(transcript);
    let mut result: Vec<String> = Vec::new();
    let mut i: usize = 0;
    while i < raw.len()
        invariant
            i <= raw@.len(),
            result@.len() == i,
            forall|j: int| 0 <= j < i ==> (#[trigger] result@[j])@ == voice_token(raw@[j]@),
        decreases raw@.len() - i,
    {
        result.push(normalize_voice_token(raw[i].as_str()));
        i = i + 1;
    }
    assert(texts(result@) =~= voice_words(transcript@)) by {
        assert forall|j: int| 0 <= j < raw@.len() implies texts(result@)[j] == voice_words(
            transcript@,
        )[j] by {
            assert(words(transcript@)[j] == texts(raw@)[j]);
        }
    }
    result
}

/// Whether the word is among the words.
pub fn mentions(words: &Vec<String>, word: &str) -> (found: bool)
    ensures
        found == has_word(texts(words@), word@),
{
    let mut i: usize = 0;
    while i < words.len()
        invariant
            i <= words@.len(),
            forall|j: int| 0 <= j < i ==> #[trigger] texts(words@)[j] != word@,
        decreases words@.len() - i,
    {
        if same(words[i].as_str(), word) {
            assert(texts(words@)[i as int] == word@);
            return true;
        }
        i = i + 1;
    }
    false
}

/// The word before position `index`, if there is one.
pub open spec fn word_before(words: Seq<Seq<char>>, index: int) -> Option<Seq<char>> {
    if 0 < index <= words.len() {
        Some(words[index - 1])
    } else {
        None
    }
}

/// The words that make "type" a noun when they stand before it.
pub open spec fn names_a_type(word: Seq<char>) -> bool {
    ||| word == "page"@
    ||| word == "file"@
    ||| word == "mime"@
    ||| word == "content"@
    ||| word == "document"@
    ||| word == "result"@
    ||| word == "record"@
}

/// The words that make "type" a request when they stand before it.
pub open spec fn leads_a_request(word: Seq<char>) -> bool {
    ||| word == "please"@
    ||| word == "you"@
    ||| word == "and"@
    ||| word == "then"@
    ||| word == "to"@
    ||| word == "can"@
    ||| word == "could"@
    ||| word == "will"@
}

/// The word at `index` asks for something to be typed.
pub open spec fn asks_to_type(words: Seq<Seq<char>>, index: int) -> bool {
    match word_before(words, index) {
        Some(word) => !names_a_type(word) && leads_a_request(word),
        None => index == 0,
    }
}

/// Whether the word at `index` asks for something to be typed.
pub fn word_is_text_entry_verb(words: &Vec<String>, index: usize) -> (found: bool)
    ensures
        found == asks_to_type(texts(words@), index as int),
{
    if index == 0 {
        return true;
    }
    if index > words.len() {
        return false;
    }
    let word = words[index - 1].as_str();
    assert(texts(words@)[index - 1] == word@);
    if same(word, "page") || same(word, "file") || same(word, "mime") || same(word, "content")
            || same(word, "document") || same(word, "result") || same(word, "record")
    {
        return false;
    }
    same(word, "please") || same(word, "you") || same(word, "and") || same(word, "then")
        || same(word, "to") || same(word, "can") || same(word, "could") || same(word, "will")
}

pub open spec fn mentions_note(words: Seq<Seq<char>>) -> bool {
    has_word(words, "note"@) || has_word(words, "notes"@)
}

/// The user wants text to be written somewhere.
pub open spec fn wants_text(transcript: Seq<char>) -> bool {
    let words = voice_words(transcript);
    ||| has_word(words, "write"@)
    ||| has_word(words, "paste"@)
    ||| exists|i: int|
        0 <= i < words.len() && #[trigger] words[i] == "type"@ && asks_to_type(words, i)
    ||| (mentions_note(words) && (has_word(words, "new"@) || has_word(words, "create"@) || has_word(
        words,
        "make"@,
    ) || has_word(words, "says"@)))
    ||| ((has_word(words, "message"@) || has_word(words, "messages"@)) && (has_word(words, "send"@)
        || has_word(words, "leave"@) || has_word(words, "draft"@) || has_word(words, "says"@)))
}

/// Whether the user wants text to be written somewhere.
pub fn transcript_requests_text_entry(transcript: &str) -> (found: bool)
    ensures
        found == wants_text(transcript@),
{
    let words = spoken_words(transcript);
    if mentions(&words, "write") || mentions(&words, "paste") {
        return true;
    }
    let mut i: usize = 0;
    while i < words.len()
        invariant
            i <= words@.len(),
            texts(words@) == voice_words(transcript@),
            forall|j: int|
                0 <= j < i ==> !(#[trigger] texts(words@)[j] == "type"@ && asks_to_type(
                    texts(words@),
                    j,
                )),
        decreases words@.len() - i,
    {
        if same(words[i].as_str(), "type") && word_is_text_entry_verb(&words, i) {
            assert(texts(words@)[i as int] == "type"@);
            return true;
        }
        i = i + 1;
    }
    if (mentions(&words, "note") || mentions(&words, "notes")) && (mentions(&words, "new")
        || mentions(&words, "create") || mentions(&words, "make") || mentions(&words, "says")) {
        return true;
    }
    (mentions(&words, "message") || mentions(&words, "messages")) && (mentions(&words, "send")
        || mentions(&words, "leave") || mentions(&words, "draft") || mentions(&words, "says"))
}

/// The user wants a new note.
pub open spec fn wants_new_note(transcript: Seq<char>) -> bool {
    let words = voice_words(transcript);
    mentions_note(words) && (has_word(words, "new"@) || has_word(words, "create"@) || has_word(
        words,
        "make"@,
    ))
}

/// Whether the user wants a new note.
pub fn transcript_requests_new_note(transcript: &str) -> (found: bool)
    ensures
        found == wants_new_note(transcript@),
{
    let words = spoken_words(transcript);
    (mentions(&words, "note") || mentions(&words, "notes")) && (mentions(&words, "new")
        || mentions(&words, "create") || mentions(&words, "make"))
}

/// Whether the user speaks of notes.
pub fn transcript_mentions_notes(transcript: &str) -> (found: bool)
    ensures
        found == mentions_note(voice_words(transcript@)),
{
    let words = spoken_words(transcript);
    mentions(&words, "note") || mentions(&words, "notes")
}

/// The user names Aegis.
pub open spec fn wants_aegis(transcript: Seq<char>) -> bool {
    has_word(voice_words(transcript), "aegis"@)
}

/// Whether the user names Aegis.
pub fn transcript_explicitly_requests_aegis(transcript: &str) -> (found: bool)
    ensures
        found == wants_aegis(transcript@),
{
    mentions(&spoken_words(transcript), "aegis")
}

/// The words ask for something to be read back from files or the shell.
pub open spec fn words_want_readback(words: Seq<Seq<char>>) -> bool {
    &&& {
        ||| has_word(words, "shell"@)
        ||| has_word(words, "file"@)
        ||| has_word(words, "files"@)
        ||| has_word(words, "directory"@)
        ||| has_word(words, "output"@)
        ||| has_word(words, "input"@)
    }
    &&& {
        ||| has_word(words, "read"@)
        ||| has_word(words, "readback"@)
        ||| has_word(words, "verify"@)
        ||| has_word(words, "verified"@)
        ||| has_word(words, "report"@)
        ||| has_word(words, "contents"@)
        ||| has_word(words, "content"@)
    }
}

/// Whether the words ask for something to be read back from files or the shell.
pub fn words_request_shell_readback(words: &Vec<String>) -> (found: bool)
    ensures
        found == words_want_readback(texts(words@)),
{
    let shell_or_file = mentions(words, "shell") || mentions(words, "file") || mentions(words, "files")
            || mentions(words, "directory") || mentions(words, "output")
            || mentions(words, "input");
    let verification = mentions(words, "read") || mentions(words, "readback") || mentions(words, "verify")
            || mentions(words, "verified") || mentions(words, "report")
            || mentions(words, "contents") || mentions(words, "content");
    shell_or_file && verification
}

/// The user wants something to be read back from files or the shell.
pub open spec fn wants_readback(transcript: Seq<char>) -> bool {
    words_want_readback(voice_words(transcript))
}

/// Whether the user wants something to be read back from files or the shell.
pub fn transcript_requests_shell_readback(transcript: &str) -> (found: bool)
    ensures
        found == wants_readback(transcript@),
{
    words_request_shell_readback(&spoken_words(transcript))
}

/// The user wants work of many steps, such as research on the web.
pub open spec fn wants_long_work(transcript: Seq<char>) -> bool {
    let words = voice_words(transcript);
    ||| has_word(words, "research"@)
    ||| has_word(words, "search"@)
    ||| has_word(words, "inspect"@)
    ||| has_word(words, "navigate"@)
    ||| has_word(words, "navigation"@)
    ||| has_word(words, "browse"@)
    ||| has_word(words, "browsing"@)
    ||| has_word(words, "web"@)
    ||| has_word(words, "page"@)
    ||| has_word(words, "google"@)
    ||| has_word(words, "lookup"@)
    ||| has_word(words, "find"@)
    ||| has_word(words, "investigate"@)
    ||| has_word(words, "compare"@)
    ||| has_word(words, "summarize"@)
    ||| (!words_want_readback(words) && (has_word(words, "readback"@) || has_word(words, "title"@) || has_word(words, "heading"@) || has_word(words, "verify"@) || has_word(words, "verified"@)))
}

/// Whether the user wants work of many steps.
pub fn transcript_requests_long_range_work(transcript: &str) -> (found: bool)
    ensures
        found == wants_long_work(transcript@),
{
    let words = spoken_words(transcript);
    if mentions(&words, "research") || mentions(&words, "search")
            || mentions(&words, "inspect") || mentions(&words, "navigate")
            || mentions(&words, "navigation") || mentions(&words, "browse")
            || mentions(&words, "browsing") || mentions(&words, "web")
            || mentions(&words, "page") || mentions(&words, "google")
            || mentions(&words, "lookup") || mentions(&words, "find")
            || mentions(&words, "investigate") || mentions(&words, "compare")
            || mentions(&words, "summarize")
    {
        return true;
    }
    if words_request_shell_readback(&words) {
        return false;
    }
    mentions(&words, "readback") || mentions(&words, "title") || mentions(&words, "heading")
        || mentions(&words, "verify") || mentions(&words, "verified")
}

/// The user wants to see a failure before it is repaired.
pub open spec fn wants_failure_first(transcript: Seq<char>) -> bool {
    let l = lower(transcript);
    &&& {
        ||| has_text(l, "recover"@)
        ||| has_text(l, "fallback"@)
        ||| has_text(l, "then create"@)
        ||| has_text(l, "then write"@)
    }
    &&& {
        ||| has_text(l, "observe the failure"@)
        ||| has_text(l, "observe failure"@)
        ||| has_text(l, "do not skip the initial failing"@)
        ||| has_text(l, "don't skip the initial failing"@)
        ||| has_text(l, "do not skip initial failing"@)
        ||| (has_text(l, "first try"@) && has_text(l, "failure"@))
        ||| (has_text(l, "first attempt"@) && has_text(l, "failure"@))
        ||| has_text(l, "expected failure"@)
    }
}

/// Whether the user wants to see a failure before it is repaired.
pub fn transcript_requires_observed_failure_boundary(transcript: &str) -> (found: bool)
    ensures
        found == wants_failure_first(transcript@),
{
    let l = to_lower(transcript);
    let l = l.as_str();
    let recover = contains(l, "recover") || contains(l, "fallback") || contains(l, "then create")
            || contains(l, "then write");
    let observe = contains(l, "observe the failure") || contains(l, "observe failure")
            || contains(l, "do not skip the initial failing")
            || contains(l, "don't skip the initial failing")
            || contains(l, "do not skip initial failing")
        || (contains(l, "first try") && contains(l, "failure"))
        || (contains(l, "first attempt") && contains(l, "failure"))
        || contains(l, "expected failure");
    recover && observe
}

/// The lesser of two positions, where both are there.
pub open spec fn sooner(a: Option<int>, b: Option<int>) -> Option<int> {
    match (a, b) {
        (Some(x), Some(y)) => Some(if x <= y { x } else { y }),
        (Some(x), None) => Some(x),
        (None, _) => b,
    }
}

/// Where a quoted value ends: at the first word or sign that goes on with the
/// sentence, or at the end.
pub open spec fn value_end(s: Seq<char>) -> int {
    let l = lower(s);
    let found = sooner(
        first_position(l, " to "@),
        sooner(
            first_position(l, " into "@),
            sooner(
                first_position(l, " in "@),
                sooner(
                    first_position(l, " and "@),
                    sooner(first_position(l, ","@), first_position(l, "."@)),
                ),
            ),
        ),
    );
    match found {
        Some(at) => at,
        None => s.len() as int,
    }
}

/// The value that `text` quotes behind `marker`, if it quotes one.
pub open spec fn value_after(text: Seq<char>, marker: Seq<char>) -> Option<Seq<char>> {
    match first_position(lower(text), marker) {
        Some(at) => {
            let rest = trim_start_of(text.skip(at + marker.len()), CharClass::White);
            let value = trimmed(rest.take(value_end(rest)));
            if value.len() > 0 {
                Some(value)
            } else {
                None
            }
        },
        None => None,
    }
}

fn lesser(a: Option<usize>, b: Option<usize>) -> (c: Option<usize>)
    ensures
        crate::text::opt_int(c) == sooner(crate::text::opt_int(a), crate::text::opt_int(b)),
        c == a || c == b,
{
    match (a, b) {
        (Some(x), Some(y)) => Some(if x <= y { x } else { y }),
        (Some(x), None) => Some(x),
        (None, _) => b,
    }
}

fn end_of_value(s: &str) -> (end: usize)
    ensures
        end == value_end(s@),
        end <= s@.len(),
{
    let l = to_lower(s);
    let l = l.as_str();
    let found = lesser(
        position_of(l, " to "),
        lesser(
            position_of(l, " into "),
            lesser(
                position_of(l, " in "),
                lesser(
                    position_of(l, " and "),
                    lesser(position_of(l, ","), position_of(l, ".")),
                ),
            ),
        ),
    );
    match found {
        Some(at) => at,
        None => crate::text::char_count(s),
    }
}

/// The value that `text` quotes behind `marker`, if it quotes one.
pub fn extract_exact_value_after_marker(text: &str, marker: &str) -> (value: Option<String>)
    ensures
        opt_text(value) == value_after(text@, marker@),
{
    match position_of(to_lower(text).as_str(), marker) {
        Some(at) => {
            let count = crate::text::char_count(text);
            assert(at + marker@.len() <= count);
            let rest = trim_start(rest_from(text, at + crate::text::char_count(marker)).as_str());
            let end = end_of_value(rest.as_str());
            let value = trim(crate::text::first_chars(rest.as_str(), end).as_str());
            if value.as_str().is_empty() {
                None
            } else {
                Some(value)
            }
        },
        None => None,
    }
}

/// Where the last part of the request begins.
pub open spec fn final_part(transcript: Seq<char>) -> Option<int> {
    let l = lower(transcript);
    match last_position(l, "then repair"@) {
        Some(at) => Some(at),
        None => match last_position(l, "finally"@) {
            Some(at) => Some(at),
            None => last_position(l, "final stdout"@),
        },
    }
}

/// The exact output that the user expects in the end, where they quote one.
pub open spec fn expected_stdout(transcript: Seq<char>) -> Option<Seq<char>> {
    if has_text(lower(transcript), "final stdout"@) {
        match final_part(transcript) {
            Some(at) => match value_after(transcript.skip(at), " exactly "@) {
                Some(value) => Some(value),
                None => value_after(transcript.skip(at), " exact "@),
            },
            None => None,
        }
    } else {
        None
    }
}

/// The exact output that the user expects in the end, where they quote one.
pub fn expected_final_shell_stdout_value(transcript: &str) -> (value: Option<String>)
    ensures
        opt_text(value) == expected_stdout(transcript@),
{
    let l = to_lower(transcript);
    let l = l.as_str();
    if !contains(l, "final stdout") {
        return None;
    }
    let start = match last_position_of(l, "then repair") {
        Some(at) => Some(at),
        None => match last_position_of(l, "finally") {
            Some(at) => Some(at),
            None => last_position_of(l, "final stdout"),
        },
    };
    match start {
        Some(at) => {
            let section = rest_from(transcript, at);
            match extract_exact_value_after_marker(section.as_str(), " exactly ") {
                Some(value) => Some(value),
                None => extract_exact_value_after_marker(section.as_str(), " exact "),
            }
        },
        None => None,
    }
}

/// A transcript as it is compared with known phrases.
pub open spec fn normalized(transcript: Seq<char>) -> Seq<char> {
    lower(squeezed(trim_of(trimmed(transcript), CharClass::Punctuation)))
}

/// A transcript without surrounding space and punctuation, with single spaces
/// and in lower case.
pub fn normalized_transcript(transcript: &str) -> (result: String)
    ensures
        result@ == normalized(transcript@),
{
    let inner = trim_class(trim(transcript).as_str(), CharClass::Punctuation);
    to_lower(crate::text::squeeze(inner.as_str()).as_str())
}

/// What speech recognition hears when nobody gave a command.
pub open spec fn is_noise(s: Seq<char>) -> bool {
    ||| s.len() == 0
    ||| s == "you"@
    ||| s == "thanks"@
    ||| s == "subscribe"@
    ||| starts_with(s, "thank you"@)
    ||| starts_with(s, "thanks for"@)
    ||| starts_with(s, "you're welcome"@)
    ||| starts_with(s, "you are welcome"@)
    ||| starts_with(s, "subtitles by"@)
}

/// Whether speech recognition heard a phrase that is no command.
pub fn is_common_missed_speech(transcript: &str) -> (found: bool)
    ensures
        found == is_noise(transcript@),
{
    transcript.is_empty() || same(transcript, "you") || same(transcript, "thanks") || same(
        transcript,
        "subscribe",
    ) || crate::text::begins_with(transcript, "thank you") || crate::text::begins_with(
        transcript,
        "thanks for",
    ) || crate::text::begins_with(transcript, "you're welcome") || crate::text::begins_with(
        transcript,
        "you are welcome",
    ) || crate::text::begins_with(transcript, "subtitles by")
}

/// What kind of transcript this is.
pub open spec fn class_of(transcript: Seq<char>) -> Seq<char> {
    let s = normalized(transcript);
    if s.len() == 0 {
        "empty"@
    } else if is_noise(s) {
        "missed_speech"@
    } else {
        "command_candidate"@
    }
}

/// What kind of transcript this is: empty, missed speech or a command.
pub fn transcript_class(transcript: &str) -> (class: &'static str)
    ensures
        class@ == class_of(transcript@),
{
    let s = normalized_transcript(transcript);
    if s.as_str().is_empty() {
        "empty"
    } else if is_common_missed_speech(s.as_str()) {
        "missed_speech"
    } else {
        "command_candidate"
    }
}

/// Words without the punctuation before the first of them, and without that one
/// if there is nothing else to it.
pub open spec fn unmarked_start(words: Seq<Seq<char>>) -> Seq<Seq<char>> {
    if words.len() == 0 {
        words
    } else {
        let first = trim_start_of(words[0], CharClass::Punctuation);
        if first.len() == 0 {
            words.skip(1)
        } else {
            seq![first] + words.skip(1)
        }
    }
}

/// Words without the punctuation behind the last of them, and without that one
/// if there is nothing else to it.
pub open spec fn unmarked_end(words: Seq<Seq<char>>) -> Seq<Seq<char>> {
    if words.len() == 0 {
        words
    } else {
        let last = trim_end_of(words.last(), CharClass::Punctuation);
        if last.len() == 0 {
            words.drop_last()
        } else {
            words.drop_last() + seq![last]
        }
    }
}

proof fn lemma_trim_start_words(s: Seq<char>)
    ensures
        words(trim_start_of(s, CharClass::White)) == words(s),
        trim_start_of(s, CharClass::White).len() > 0 ==> !is_white(
            trim_start_of(s, CharClass::White)[0],
        ),
    decreases s.len(),
{
    if s.len() > 0 && is_white(s[0]) {
        lemma_trim_start_words(s.skip(1));
    }
}

proof fn lemma_trim_end_words(s: Seq<char>)
    ensures
        words(trim_end_of(s, CharClass::White)) == words(s),
        trim_end_of(s, CharClass::White).len() > 0 ==> !is_white(
            trim_end_of(s, CharClass::White).last(),
        ) && trim_end_of(s, CharClass::White)[0] == s[0],
    decreases s.len(),
{
    if s.len() > 0 && is_white(s.last()) {
        let shorter = s.drop_last();
        let end = seq![s.last()];
        lemma_trim_end_words(shorter);
        assert(shorter + end =~= s);
        lemma_words_of_two(shorter, end);
        lemma_white_has_no_words(end);
        assert(words(shorter) + words(end) =~= words(shorter));
    }
}

proof fn lemma_trim_start_of_two(a: Seq<char>, b: Seq<char>)
    requires
        no_white(a),
        b.len() > 0 ==> is_white(b[0]),
    ensures
        trim_start_of(a + b, CharClass::Punctuation) == trim_start_of(a, CharClass::Punctuation) + b,
        no_white(trim_start_of(a, CharClass::Punctuation)),
    decreases a.len(),
{
    let whole = a + b;
    if a.len() == 0 {
        assert(whole =~= b);
        assert(trim_start_of(a, CharClass::Punctuation) + b =~= b);
    } else {
        assert(whole[0] == a[0]);
        if in_class(a[0], CharClass::Punctuation) {
            assert(whole.skip(1) =~= a.skip(1) + b);
            lemma_trim_start_of_two(a.skip(1), b);
        }
    }
}

proof fn lemma_trim_end_of_two(a: Seq<char>, b: Seq<char>)
    requires
        no_white(b),
        a.len() > 0 ==> is_white(a.last()),
    ensures
        trim_end_of(a + b, CharClass::Punctuation) == a + trim_end_of(b, CharClass::Punctuation),
        no_white(trim_end_of(b, CharClass::Punctuation)),
    decreases b.len(),
{
    let whole = a + b;
    if b.len() == 0 {
        assert(whole =~= a);
        assert(a + trim_end_of(b, CharClass::Punctuation) =~= a);
    } else {
        assert(whole.last() == b.last());
        if in_class(b.last(), CharClass::Punctuation) {
            assert(whole.drop_last() =~= a + b.drop_last());
            lemma_trim_end_of_two(a, b.drop_last());
        }
    }
}

/// Where the last word of a text begins.
proof fn lemma_last_word(s: Seq<char>) -> (at: int)
    ensures
        0 <= at <= s.len(),
        no_white(s.skip(at)),
        at > 0 ==> is_white(s[at - 1]),
        s.len() > 0 && !is_white(s.last()) ==> at < s.len(),
    decreases s.len(),
{
    if s.len() == 0 || is_white(s.last()) {
        s.len() as int
    } else {
        let shorter = s.drop_last();
        let at = lemma_last_word(shorter);
        assert forall|i: int| 0 <= i < s.skip(at).len() implies !is_white(
            #[trigger] s.skip(at)[i],
        ) by {
            if i < shorter.skip(at).len() {
                assert(s.skip(at)[i] == shorter.skip(at)[i]);
            }
        }
        at
    }
}

/// The words that are left between the outer punctuation of a transcript are
/// those of the transcript without the punctuation at their ends.
proof fn lemma_unmarked_words(transcript: Seq<char>)
    ensures
        words(trim_of(trimmed(transcript), CharClass::Punctuation)) == unmarked_end(
            unmarked_start(words(transcript)),
        ),
{
    let s = trimmed(transcript);
    lemma_trim_start_words(transcript);
    lemma_trim_end_words(trim_start_of(transcript, CharClass::White));
    assert(words(s) == words(transcript));
    let begun = trim_start_of(s, CharClass::Punctuation);
    if s.len() > 0 {
        let n = word_len(s) as int;
        lemma_first_word(s);
        let first = s.take(n);
        let rest = s.skip(n);
        assert(first + rest =~= s);
        if rest.len() > 0 {
            assert(rest[0] == s[n]);
            assert(rest.last() == s.last());
        }
        lemma_trim_start_of_two(first, rest);
        let trimmed_first = trim_start_of(first, CharClass::Punctuation);
        lemma_words_of_two(trimmed_first, rest);
        lemma_one_word(trimmed_first);
        assert(words(s) == seq![first] + words(rest));
        assert(words(s).skip(1) =~= words(rest));
        assert(words(begun) =~= unmarked_start(words(s)));
        if begun.len() > 0 && rest.len() == 0 {
            assert(begun =~= trimmed_first);
            assert(!is_white(trimmed_first[trimmed_first.len() - 1]));
        }
        assert(begun.len() > 0 ==> !is_white(begun.last()));
    }
    if begun.len() > 0 {
        let at = lemma_last_word(begun);
        let head = begun.take(at);
        let last = begun.skip(at);
        assert(head + last =~= begun);
        if at > 0 {
            assert(head.last() == begun[at - 1]);
        }
        lemma_trim_end_of_two(head, last);
        let trimmed_last = trim_end_of(last, CharClass::Punctuation);
        lemma_words_of_two(head, last);
        lemma_words_of_two(head, trimmed_last);
        lemma_one_word(last);
        lemma_one_word(trimmed_last);
        assert(words(begun) == words(head) + seq![last]);
        assert(words(begun).drop_last() =~= words(head));
        assert(words(begun).last() == last);
        assert(words(head + trimmed_last) =~= unmarked_end(words(begun)));
    }
}

/// What kind of transcript it is depends on its words alone.
pub proof fn lemma_class_is_of_the_words(a: Seq<char>, b: Seq<char>)
    requires
        words(a) == words(b),
    ensures
        normalized(a) == normalized(b),
        class_of(a) == class_of(b),
{
    lemma_unmarked_words(a);
    lemma_unmarked_words(b);
}

/// Blanks around a transcript leave its kind as it is.
pub proof fn lemma_outer_blanks_leave_the_class(
    before: Seq<char>,
    transcript: Seq<char>,
    after: Seq<char>,
)
    requires
        all_white(before),
        all_white(after),
    ensures
        class_of(before + transcript + after) == class_of(transcript),
{
    lemma_outer_blanks(before, transcript, after);
    lemma_class_is_of_the_words(before + transcript + after, transcript);
}

/// How wide a gap between the words of a transcript is leaves its kind as it is.
pub proof fn lemma_wider_gaps_leave_the_class(
    a: Seq<char>,
    gap: Seq<char>,
    other: Seq<char>,
    b: Seq<char>,
)
    requires
        all_white(gap) && gap.len() > 0,
        all_white(other) && other.len() > 0,
    ensures
        class_of(a + gap + b) == class_of(a + other + b),
{
    lemma_wider_gaps(a, gap, other, b);
    lemma_class_is_of_the_words(a + gap + b, a + other + b);
}

proof fn lemma_trim_start_keeps_the_end(s: Seq<char>, c: char)
    requires
        !is_white(c),
    ensures
        trim_start_of(s.push(c), CharClass::White) == trim_start_of(s, CharClass::White).push(c),
        trim_start_of(s, CharClass::White).len() > 0 ==> trim_start_of(s, CharClass::White).last()
            == s.last(),
    decreases s.len(),
{
    let longer = s.push(c);
    if s.len() > 0 {
        assert(longer[0] == s[0]);
        if is_white(s[0]) {
            assert(longer.skip(1) =~= s.skip(1).push(c));
            lemma_trim_start_keeps_the_end(s.skip(1), c);
        }
    }
}

proof fn lemma_trim_of_a_closing_mark(s: Seq<char>, mark: char)
    requires
        is_punct(mark),
    ensures
        trim_of(s.push(mark), CharClass::Punctuation) == trim_of(s, CharClass::Punctuation),
    decreases s.len(),
{
    let longer = s.push(mark);
    if s.len() == 0 {
        assert(longer.skip(1) =~= s);
    } else {
        assert(longer[0] == s[0]);
        if in_class(s[0], CharClass::Punctuation) {
            assert(longer.skip(1) =~= s.skip(1).push(mark));
            lemma_trim_of_a_closing_mark(s.skip(1), mark);
        } else {
            assert(longer.drop_last() =~= s);
        }
    }
}

/// A mark that closes a transcript leaves its kind as it is.
pub proof fn lemma_closing_mark_leaves_the_class(transcript: Seq<char>, mark: char)
    requires
        is_punct(mark),
        transcript.len() > 0 ==> !is_white(transcript.last()),
    ensures
        normalized(transcript.push(mark)) == normalized(transcript),
        class_of(transcript.push(mark)) == class_of(transcript),
{
    lemma_trim_start_keeps_the_end(transcript, mark);
    let begun = trim_start_of(transcript, CharClass::White);
    assert(trimmed(transcript) == begun);
    assert(begun.push(mark).last() == mark);
    assert(trimmed(transcript.push(mark)) == begun.push(mark));
    lemma_trim_of_a_closing_mark(begun, mark);
}

proof fn lemma_lower_char(c: char)
    ensures
        is_white(lower_char(c)) == is_white(c),
        is_punct(lower_char(c)) == is_punct(c),
        lower_char(lower_char(c)) == lower_char(c),
{
}

proof fn lemma_lower_trim_start(s: Seq<char>, class: CharClass)
    requires
        class != CharClass::NotAlphanumeric,
    ensures
        trim_start_of(lower(s), class) == lower(trim_start_of(s, class)),
    decreases s.len(),
{
    if s.len() > 0 {
        lemma_lower_char(s[0]);
        if in_class(s[0], class) {
            assert(lower(s).skip(1) =~= lower(s.skip(1)));
            lemma_lower_trim_start(s.skip(1), class);
        }
    }
}

proof fn lemma_lower_trim_end(s: Seq<char>, class: CharClass)
    requires
        class != CharClass::NotAlphanumeric,
    ensures
        trim_end_of(lower(s), class) == lower(trim_end_of(s, class)),
    decreases s.len(),
{
    if s.len() > 0 {
        lemma_lower_char(s.last());
        if in_class(s.last(), class) {
            assert(lower(s).drop_last() =~= lower(s.drop_last()));
            lemma_lower_trim_end(s.drop_last(), class);
        }
    }
}

pub open spec fn each_lower(words: Seq<Seq<char>>) -> Seq<Seq<char>> {
    words.map_values(|word: Seq<char>| lower(word))
}

proof fn lemma_lower_word_len(s: Seq<char>)
    ensures
        word_len(lower(s)) == word_len(s),
    decreases s.len(),
{
    if s.len() > 0 {
        lemma_lower_char(s[0]);
        if !is_white(s[0]) {
            assert(lower(s).skip(1) =~= lower(s.skip(1)));
            lemma_lower_word_len(s.skip(1));
        }
    }
}

proof fn lemma_lower_words(s: Seq<char>)
    ensures
        words(lower(s)) == each_lower(words(s)),
    decreases s.len(),
{
    if s.len() == 0 {
        assert(words(lower(s)) =~= each_lower(words(s)));
    } else {
        lemma_lower_char(s[0]);
        if is_white(s[0]) {
            assert(lower(s).skip(1) =~= lower(s.skip(1)));
            lemma_lower_words(s.skip(1));
        } else {
            let n = word_len(s) as int;
            lemma_first_word(s);
            lemma_lower_word_len(s);
            assert(lower(s).take(n) =~= lower(s.take(n)));
            assert(lower(s).skip(n) =~= lower(s.skip(n)));
            lemma_lower_words(s.skip(n));
            assert(words(s) == seq![s.take(n)] + words(s.skip(n)));
            assert(words(lower(s)) =~= each_lower(words(s)));
        }
    }
}

proof fn lemma_lower_joined(words: Seq<Seq<char>>)
    ensures
        joined(each_lower(words), " "@) == lower(joined(words, " "@)),
    decreases words.len(),
{
    reveal_strlit(" ");
    if words.len() == 0 {
        assert(joined(each_lower(words), " "@) =~= lower(joined(words, " "@)));
    } else if words.len() > 1 {
        lemma_lower_joined(words.drop_last());
        assert(each_lower(words).drop_last() =~= each_lower(words.drop_last()));
        assert(joined(each_lower(words), " "@) =~= lower(joined(words, " "@)));
    }
}

proof fn lemma_lower_twice(s: Seq<char>)
    ensures
        lower(lower(s)) == lower(s),
{
    assert forall|i: int| 0 <= i < s.len() implies #[trigger] lower(lower(s))[i] == lower(s)[i] by {
        lemma_lower_char(s[i]);
    }
    assert(lower(lower(s)) =~= lower(s));
}

proof fn lemma_lower_normalized(transcript: Seq<char>)
    ensures
        normalized(lower(transcript)) == normalized(transcript),
{
    let begun = trim_start_of(transcript, CharClass::White);
    let s = trimmed(transcript);
    let unmarked = trim_start_of(s, CharClass::Punctuation);
    let inner = trim_of(s, CharClass::Punctuation);
    lemma_lower_trim_start(transcript, CharClass::White);
    lemma_lower_trim_end(begun, CharClass::White);
    lemma_lower_trim_start(s, CharClass::Punctuation);
    lemma_lower_trim_end(unmarked, CharClass::Punctuation);
    lemma_lower_words(inner);
    lemma_lower_joined(words(inner));
    lemma_lower_twice(squeezed(inner));
}

/// Capitals in a transcript leave its kind as it is.
pub proof fn lemma_capitals_leave_the_class(a: Seq<char>, b: Seq<char>)
    requires
        lower(a) == lower(b),
    ensures
        normalized(a) == normalized(b),
        class_of(a) == class_of(b),
{
    lemma_lower_normalized(a);
    lemma_lower_normalized(b);
}

/// A word that is spoken is heard, whatever is said before and after it, with
/// whatever capitals and marks it is written.
pub proof fn lemma_spoken_word_is_heard(
    before: Seq<char>,
    opening: Seq<char>,
    word: Seq<char>,
    closing: Seq<char>,
    after: Seq<char>,
)
    requires
        before.len() > 0 ==> is_white(before.last()),
        after.len() > 0 ==> is_white(after[0]),
        no_white(opening + word + closing),
        forall|i: int| 0 <= i < opening.len() ==> !is_alnum(#[trigger] opening[i]),
        forall|i: int| 0 <= i < closing.len() ==> !is_alnum(#[trigger] closing[i]),
        word.len() > 0 && is_alnum(word[0]) && is_alnum(word.last()),
    ensures
        has_word(voice_words(before + (opening + word + closing) + after), lower(word)),
{
    let token = opening + word + closing;
    let whole = before + token + after;
    lemma_words_of_two(before, token);
    lemma_words_of_two(before + token, after);
    lemma_one_word(token);
    lemma_marks_are_trimmed(opening, word, closing);
    let at = words(before).len() as int;
    assert(words(whole) == words(before) + seq![token] + words(after));
    assert(words(whole)[at] == token);
    assert(voice_words(whole)[at] == voice_token(token));
}

proof fn lemma_marks_are_trimmed(opening: Seq<char>, word: Seq<char>, closing: Seq<char>)
    requires
        forall|i: int| 0 <= i < opening.len() ==> !is_alnum(#[trigger] opening[i]),
        forall|i: int| 0 <= i < closing.len() ==> !is_alnum(#[trigger] closing[i]),
        word.len() > 0 && is_alnum(word[0]) && is_alnum(word.last()),
    ensures
        trim_of(opening + word + closing, CharClass::NotAlphanumeric) == word,
    decreases opening.len() + closing.len(),
{
    let whole = opening + word + closing;
    if opening.len() > 0 {
        assert(whole[0] == opening[0]);
        assert(whole.skip(1) =~= opening.skip(1) + word + closing);
        lemma_marks_are_trimmed(opening.skip(1), word, closing);
    } else {
        assert(whole =~= word + closing);
        assert(whole[0] == word[0]);
        lemma_closing_marks_are_trimmed(word, closing);
    }
}

proof fn lemma_closing_marks_are_trimmed(word: Seq<char>, closing: Seq<char>)
    requires
        forall|i: int| 0 <= i < closing.len() ==> !is_alnum(#[trigger] closing[i]),
        word.len() > 0 && is_alnum(word.last()),
    ensures
        trim_end_of(word + closing, CharClass::NotAlphanumeric) == word,
    decreases closing.len(),
{
    let whole = word + closing;
    if closing.len() > 0 {
        assert(whole.last() == closing.last());
        assert(closing[closing.len() - 1] == closing.last());
        assert(whole.drop_last() =~= word + closing.drop_last());
        lemma_closing_marks_are_trimmed(word, closing.drop_last());
    } else {
        assert(whole =~= word);
    }
}

/// The words of work that takes many steps.
pub open spec fn is_long_work_word(word: Seq<char>) -> bool {
    ||| word == "research"@
    ||| word == "search"@
    ||| word == "inspect"@
    ||| word == "navigate"@
    ||| word == "navigation"@
    ||| word == "browse"@
    ||| word == "browsing"@
    ||| word == "web"@
    ||| word == "page"@
    ||| word == "google"@
    ||| word == "lookup"@
    ||| word == "find"@
    ||| word == "investigate"@
    ||| word == "compare"@
    ||| word == "summarize"@
}

/// The words that ask to check something on a page.
pub open spec fn is_check_word(word: Seq<char>) -> bool {
    ||| word == "readback"@
    ||| word == "title"@
    ||| word == "heading"@
    ||| word == "verify"@
    ||| word == "verified"@
}

/// The words for what can be read back.
pub open spec fn is_readback_place(word: Seq<char>) -> bool {
    ||| word == "shell"@
    ||| word == "file"@
    ||| word == "files"@
    ||| word == "directory"@
    ||| word == "output"@
    ||| word == "input"@
}

/// The words that ask to read something back.
pub open spec fn is_readback_wish(word: Seq<char>) -> bool {
    ||| word == "read"@
    ||| word == "readback"@
    ||| word == "verify"@
    ||| word == "verified"@
    ||| word == "report"@
    ||| word == "contents"@
    ||| word == "content"@
}

/// The words that a request to type can follow.
pub open spec fn is_request_lead(word: Seq<char>) -> bool {
    ||| word == "please"@
    ||| word == "you"@
    ||| word == "and"@
    ||| word == "then"@
    ||| word == "to"@
    ||| word == "can"@
    ||| word == "could"@
    ||| word == "will"@
}

/// Each word of long work asks for it, whatever else is said; a word that asks to
/// check something does so where nothing is to be read back from a file or a
/// shell. Without such a word there is no long work.
pub proof fn lemma_words_of_long_work(transcript: Seq<char>, word: Seq<char>)
    ensures
        is_long_work_word(word) && has_word(voice_words(transcript), word) ==> wants_long_work(
            transcript,
        ),
        is_check_word(word) && has_word(voice_words(transcript), word) && !wants_readback(transcript)
            ==> wants_long_work(transcript),
        (forall|w: Seq<char>| is_long_work_word(w) || is_check_word(w) ==> !#[trigger] has_word(
            voice_words(transcript),
            w,
        )) ==> !wants_long_work(transcript),
        (forall|w: Seq<char>| is_long_work_word(w) ==> !#[trigger] has_word(
            voice_words(transcript),
            w,
        )) && wants_readback(transcript) ==> !wants_long_work(transcript),
{
    assert(is_long_work_word("research"@));
    assert(is_long_work_word("search"@));
    assert(is_long_work_word("inspect"@));
    assert(is_long_work_word("navigate"@));
    assert(is_long_work_word("navigation"@));
    assert(is_long_work_word("browse"@));
    assert(is_long_work_word("browsing"@));
    assert(is_long_work_word("web"@));
    assert(is_long_work_word("page"@));
    assert(is_long_work_word("google"@));
    assert(is_long_work_word("lookup"@));
    assert(is_long_work_word("find"@));
    assert(is_long_work_word("investigate"@));
    assert(is_long_work_word("compare"@));
    assert(is_long_work_word("summarize"@));
    assert(is_check_word("readback"@));
    assert(is_check_word("title"@));
    assert(is_check_word("heading"@));
    assert(is_check_word("verify"@));
    assert(is_check_word("verified"@));
}

/// Something is to be read back exactly if a word for what can be read and a word
/// that asks for it are both spoken, in any order.
pub proof fn lemma_words_of_a_readback(transcript: Seq<char>, place: Seq<char>, wish: Seq<char>)
    ensures
        is_readback_place(place) && is_readback_wish(wish) && has_word(
            voice_words(transcript),
            place,
        ) && has_word(voice_words(transcript), wish) ==> wants_readback(transcript),
        (forall|w: Seq<char>| is_readback_place(w) ==> !#[trigger] has_word(
            voice_words(transcript),
            w,
        )) ==> !wants_readback(transcript),
        (forall|w: Seq<char>| is_readback_wish(w) ==> !#[trigger] has_word(
            voice_words(transcript),
            w,
        )) ==> !wants_readback(transcript),
{
    assert(is_readback_place("shell"@));
    assert(is_readback_place("file"@));
    assert(is_readback_place("files"@));
    assert(is_readback_place("directory"@));
    assert(is_readback_place("output"@));
    assert(is_readback_place("input"@));
    assert(is_readback_wish("read"@));
    assert(is_readback_wish("readback"@));
    assert(is_readback_wish("verify"@));
    assert(is_readback_wish("verified"@));
    assert(is_readback_wish("report"@));
    assert(is_readback_wish("contents"@));
    assert(is_readback_wish("content"@));
}

/// Text is asked for by the words for writing and pasting, by a new note or a note
/// that says something, by a message that is to be sent, left or drafted or that
/// says something, and by the word for typing where it begins a request.
pub proof fn lemma_words_of_text(transcript: Seq<char>, i: int)
    ensures
        ({
            let words = voice_words(transcript);
            let note = has_word(words, "note"@) || has_word(words, "notes"@);
            let message = has_word(words, "message"@) || has_word(words, "messages"@);
            &&& has_word(words, "write"@) || has_word(words, "paste"@) ==> wants_text(transcript)
            &&& note && (has_word(words, "new"@) || has_word(words, "create"@) || has_word(
                words,
                "make"@,
            )) ==> wants_text(transcript) && wants_new_note(transcript)
            &&& note && has_word(words, "says"@) ==> wants_text(transcript)
            &&& message && (has_word(words, "send"@) || has_word(words, "leave"@) || has_word(
                words,
                "draft"@,
            ) || has_word(words, "says"@)) ==> wants_text(transcript)
            &&& 0 <= i < words.len() && words[i] == "type"@ && (i == 0 || is_request_lead(
                words[i - 1],
            )) ==> wants_text(transcript)
            &&& !note ==> !wants_new_note(transcript)
            &&& !has_word(words, "new"@) && !has_word(words, "create"@) && !has_word(words, "make"@)
                ==> !wants_new_note(transcript)
            &&& !has_word(words, "write"@) && !has_word(words, "paste"@) && !has_word(words, "type"@)
                && !note && !message ==> !wants_text(transcript)
        }),
{
    let words = voice_words(transcript);
    if 0 <= i < words.len() && words[i] == "type"@ && (i == 0 || is_request_lead(words[i - 1])) {
        if i > 0 {
            lemma_leads_are_no_types(words[i - 1]);
        }
        assert(asks_to_type(words, i));
    }
}

/// A word for typing behind another word than those that lead a request asks for
/// nothing: the type of a file is not to be typed.
pub proof fn lemma_type_of_something_is_not_typed(words: Seq<Seq<char>>, i: int)
    requires
        0 < i <= words.len(),
        !is_request_lead(words[i - 1]),
    ensures
        !asks_to_type(words, i),
{
}

proof fn lemma_leads_are_no_types(word: Seq<char>)
    requires
        is_request_lead(word),
    ensures
        !names_a_type(word),
        leads_a_request(word),
{
    reveal_strlit("please");
    reveal_strlit("you");
    reveal_strlit("and");
    reveal_strlit("then");
    reveal_strlit("to");
    reveal_strlit("can");
    reveal_strlit("could");
    reveal_strlit("will");
    reveal_strlit("page");
    reveal_strlit("file");
    reveal_strlit("mime");
    reveal_strlit("content");
    reveal_strlit("document");
    reveal_strlit("result");
    reveal_strlit("record");
    assert("please"@.len() != "page"@.len());
    assert("please"@.len() != "file"@.len());
    assert("please"@.len() != "mime"@.len());
    assert("please"@.len() != "content"@.len());
    assert("please"@.len() != "document"@.len());
    assert("please"@[0] != "result"@[0]);
    assert("please"@[0] != "record"@[0]);
    assert("you"@.len() != "page"@.len());
    assert("you"@.len() != "file"@.len());
    assert("you"@.len() != "mime"@.len());
    assert("you"@.len() != "content"@.len());
    assert("you"@.len() != "document"@.len());
    assert("you"@.len() != "result"@.len());
    assert("you"@.len() != "record"@.len());
    assert("and"@.len() != "page"@.len());
    assert("and"@.len() != "file"@.len());
    assert("and"@.len() != "mime"@.len());
    assert("and"@.len() != "content"@.len());
    assert("and"@.len() != "document"@.len());
    assert("and"@.len() != "result"@.len());
    assert("and"@.len() != "record"@.len());
    assert("then"@[0] != "page"@[0]);
    assert("then"@[0] != "file"@[0]);
    assert("then"@[0] != "mime"@[0]);
    assert("then"@.len() != "content"@.len());
    assert("then"@.len() != "document"@.len());
    assert("then"@.len() != "result"@.len());
    assert("then"@.len() != "record"@.len());
    assert("to"@.len() != "page"@.len());
    assert("to"@.len() != "file"@.len());
    assert("to"@.len() != "mime"@.len());
    assert("to"@.len() != "content"@.len());
    assert("to"@.len() != "document"@.len());
    assert("to"@.len() != "result"@.len());
    assert("to"@.len() != "record"@.len());
    assert("can"@.len() != "page"@.len());
    assert("can"@.len() != "file"@.len());
    assert("can"@.len() != "mime"@.len());
    assert("can"@.len() != "content"@.len());
    assert("can"@.len() != "document"@.len());
    assert("can"@.len() != "result"@.len());
    assert("can"@.len() != "record"@.len());
    assert("could"@.len() != "page"@.len());
    assert("could"@.len() != "file"@.len());
    assert("could"@.len() != "mime"@.len());
    assert("could"@.len() != "content"@.len());
    assert("could"@.len() != "document"@.len());
    assert("could"@.len() != "result"@.len());
    assert("could"@.len() != "record"@.len());
    assert("will"@[0] != "page"@[0]);
    assert("will"@[0] != "file"@[0]);
    assert("will"@[0] != "mime"@[0]);
    assert("will"@.len() != "content"@.len());
    assert("will"@.len() != "document"@.len());
    assert("will"@.len() != "result"@.len());
    assert("will"@.len() != "record"@.len());
}

/// Aegis is asked for by its name and by nothing else.
pub proof fn lemma_word_of_aegis(transcript: Seq<char>)
    ensures
        wants_aegis(transcript) <==> exists|i: int|
            0 <= i < voice_words(transcript).len() && #[trigger] voice_words(transcript)[i]
                == "aegis"@,
{
}

/// The phrases of a request that goes on after a failure.
pub open spec fn is_recovery_phrase(phrase: Seq<char>) -> bool {
    ||| phrase == "recover"@
    ||| phrase == "fallback"@
    ||| phrase == "then create"@
    ||| phrase == "then write"@
}

/// The phrases of a request to see a failure first.
pub open spec fn is_failure_phrase(phrase: Seq<char>) -> bool {
    ||| phrase == "observe the failure"@
    ||| phrase == "observe failure"@
    ||| phrase == "do not skip the initial failing"@
    ||| phrase == "don't skip the initial failing"@
    ||| phrase == "do not skip initial failing"@
    ||| phrase == "expected failure"@
}

/// A failure is to be seen first exactly if the request both asks to see it and
/// goes on after it.
pub proof fn lemma_words_of_a_failure_first(transcript: Seq<char>, a: Seq<char>, b: Seq<char>)
    ensures
        is_recovery_phrase(a) && is_failure_phrase(b) && has_text(lower(transcript), a) && has_text(
            lower(transcript),
            b,
        ) ==> wants_failure_first(transcript),
        is_recovery_phrase(a) && has_text(lower(transcript), a) && has_text(
            lower(transcript),
            "failure"@,
        ) && (has_text(lower(transcript), "first try"@) || has_text(
            lower(transcript),
            "first attempt"@,
        )) ==> wants_failure_first(transcript),
        (forall|p: Seq<char>| is_recovery_phrase(p) ==> !#[trigger] has_text(lower(transcript), p))
            ==> !wants_failure_first(transcript),
        (forall|p: Seq<char>| is_failure_phrase(p) ==> !#[trigger] has_text(lower(transcript), p))
            && !has_text(lower(transcript), "failure"@) ==> !wants_failure_first(transcript),
{
    assert(is_recovery_phrase("recover"@));
    assert(is_recovery_phrase("fallback"@));
    assert(is_recovery_phrase("then create"@));
    assert(is_recovery_phrase("then write"@));
    assert(is_failure_phrase("observe the failure"@));
    assert(is_failure_phrase("observe failure"@));
    assert(is_failure_phrase("do not skip the initial failing"@));
    assert(is_failure_phrase("don't skip the initial failing"@));
    assert(is_failure_phrase("do not skip initial failing"@));
    assert(is_failure_phrase("expected failure"@));
}

/// What speech recognition hears where nothing was said.
pub open spec fn is_noise_phrase(phrase: Seq<char>) -> bool {
    ||| phrase == "you"@
    ||| phrase == "thanks"@
    ||| phrase == "subscribe"@
}

/// What speech recognition begins with where nothing was said.
pub open spec fn is_noise_start(phrase: Seq<char>) -> bool {
    ||| phrase == "thank you"@
    ||| phrase == "thanks for"@
    ||| phrase == "you're welcome"@
    ||| phrase == "you are welcome"@
    ||| phrase == "subtitles by"@
}

/// Missed speech is one of the known phrases or begins like one; everything else
/// that is said is a command.
pub proof fn lemma_known_phrases_are_missed_speech(transcript: Seq<char>, phrase: Seq<char>)
    ensures
        normalized(transcript).len() == 0 ==> class_of(transcript) == "empty"@,
        normalized(transcript).len() > 0 && is_noise_phrase(normalized(transcript)) ==> class_of(
            transcript,
        ) == "missed_speech"@,
        normalized(transcript).len() > 0 && is_noise_start(phrase) && starts_with(
            normalized(transcript),
            phrase,
        ) ==> class_of(transcript) == "missed_speech"@,
        normalized(transcript).len() > 0 && !is_noise_phrase(normalized(transcript)) && (forall|
            p: Seq<char>,
        |
            is_noise_start(p) ==> !#[trigger] starts_with(normalized(transcript), p)) ==> class_of(
            transcript,
        ) == "command_candidate"@,
{
    assert(is_noise_start("thank you"@));
    assert(is_noise_start("thanks for"@));
    assert(is_noise_start("you're welcome"@));
    assert(is_noise_start("you are welcome"@));
    assert(is_noise_start("subtitles by"@));
}

/// The place where a quoted value ends.
pub open spec fn ends_value(s: Seq<char>) -> bool {
    ||| starts_with(lower(s), " to "@)
    ||| starts_with(lower(s), " into "@)
    ||| starts_with(lower(s), " in "@)
    ||| starts_with(lower(s), " and "@)
    ||| starts_with(lower(s), ","@)
    ||| starts_with(lower(s), "."@)
}

proof fn lemma_start_of_the_rest(s: Seq<char>, phrase: Seq<char>, at: int)
    requires
        0 <= at <= s.len(),
    ensures
        occurs_at(lower(s), phrase, at) <==> starts_with(lower(s.skip(at)), phrase),
{
    if at + phrase.len() <= s.len() {
        assert(lower(s).subrange(at, at + phrase.len()) =~= lower(s.skip(at)).subrange(
            0,
            phrase.len() as int,
        ));
    }
}

proof fn lemma_first_is_first(s: Seq<char>, phrase: Seq<char>)
    ensures
        match first_position(lower(s), phrase) {
            Some(at) => occurs_at(lower(s), phrase, at) && forall|i: int|
                0 <= i < at ==> !starts_with(#[trigger] lower(s.skip(i)), phrase),
            None => forall|i: int|
                0 <= i <= s.len() ==> !starts_with(#[trigger] lower(s.skip(i)), phrase),
        },
{
    if has_text(lower(s), phrase) {
        let at = choose|at: int| occurs_at(lower(s), phrase, at);
        let first = lemma_some_first(lower(s), phrase, at);
        lemma_first_position(lower(s), phrase, first);
        assert forall|i: int| 0 <= i < first implies !starts_with(
            #[trigger] lower(s.skip(i)),
            phrase,
        ) by {
            lemma_start_of_the_rest(s, phrase, i);
        }
    } else {
        assert forall|i: int| 0 <= i <= s.len() implies !starts_with(
            #[trigger] lower(s.skip(i)),
            phrase,
        ) by {
            lemma_start_of_the_rest(s, phrase, i);
        }
    }
}

proof fn lemma_some_first(text: Seq<char>, needle: Seq<char>, at: int) -> (first: int)
    requires
        occurs_at(text, needle, at),
    ensures
        first_at(text, needle, first),
        first <= at,
    decreases at,
{
    if exists|before: int| before < at && occurs_at(text, needle, before) {
        let before = choose|before: int| before < at && occurs_at(text, needle, before);
        lemma_some_first(text, needle, before)
    } else {
        at
    }
}

/// A value ends at the first of ` to `, ` into `, ` in `, ` and `, a comma or a
/// full stop behind it, or with the text.
pub proof fn lemma_value_ends_first(value: Seq<char>, rest: Seq<char>)
    requires
        rest.len() == 0 || ends_value(rest),
        forall|i: int| 0 <= i < value.len() ==> !ends_value(#[trigger] (value + rest).skip(i)),
    ensures
        value_end(value + rest) == value.len(),
{
    let s = value + rest;
    let n = value.len() as int;
    assert(s.skip(n) =~= rest);
    let marks = seq![" to "@, " into "@, " in "@, " and "@, ","@, "."@];
    reveal_strlit(" to ");
    reveal_strlit(" into ");
    reveal_strlit(" in ");
    reveal_strlit(" and ");
    reveal_strlit(",");
    reveal_strlit(".");
    assert forall|k: int| 0 <= k < 6 implies (match first_position(
        lower(s),
        #[trigger] marks[k],
    ) {
        Some(at) => at >= n && (at == n <==> starts_with(lower(rest), marks[k])),
        None => !starts_with(lower(rest), marks[k]),
    }) by {
        let mark = marks[k];
        lemma_first_is_first(s, mark);
        if let Some(at) = first_position(lower(s), mark) {
            lemma_start_of_the_rest(s, mark, at);
            if at < n {
                assert(ends_value(s.skip(at)));
            }
            if at > n && starts_with(lower(rest), mark) {
                assert(starts_with(lower(s.skip(n)), mark));
            }
        } else {
            assert(!starts_with(lower(s.skip(n)), mark));
        }
    }
    assert(marks[0] == " to "@ && marks[1] == " into "@ && marks[2] == " in "@ && marks[3]
        == " and "@ && marks[4] == ","@ && marks[5] == "."@);
    if rest.len() == 0 {
        assert forall|k: int| 0 <= k < 6 implies first_position(
            lower(s),
            #[trigger] marks[k],
        ) is None by {
            lemma_first_is_first(s, marks[k]);
            assert(marks[k].len() > 0);
        }
    }
}

/// The value that is quoted behind a marker is what stands between the first
/// marker and the end of the value, without blanks around it; nothing is quoted
/// without the marker.
pub proof fn lemma_quoted_value(
    before: Seq<char>,
    marker: Seq<char>,
    blanks: Seq<char>,
    value: Seq<char>,
    rest: Seq<char>,
)
    requires
        first_position(lower(before + marker + blanks + value + rest), lower(marker)) == Some(
            before.len() as int,
        ),
        all_white(blanks),
        value.len() > 0 && !is_white(value[0]) && !is_white(value.last()),
        rest.len() == 0 || ends_value(rest),
        forall|i: int| 0 <= i < value.len() ==> !ends_value(#[trigger] (value + rest).skip(i)),
    ensures
        value_after(before + marker + blanks + value + rest, lower(marker)) == Some(value),
{
    let whole = before + marker + blanks + value + rest;
    let behind = whole.skip((before.len() + marker.len()) as int);
    assert(behind =~= blanks + (value + rest));
    lemma_leading_blanks(blanks, value + rest);
    lemma_value_ends_first(value, rest);
    assert((value + rest).take(value.len() as int) =~= value);
    assert(Seq::<char>::empty() + value + Seq::<char>::empty() =~= value);
    lemma_trimmed_is_the_core(Seq::empty(), value, Seq::empty());
}

proof fn lemma_leading_blanks(blanks: Seq<char>, s: Seq<char>)
    requires
        all_white(blanks),
        s.len() > 0 && !is_white(s[0]),
    ensures
        trim_start_of(blanks + s, CharClass::White) == s,
    decreases blanks.len(),
{
    let whole = blanks + s;
    if blanks.len() > 0 {
        assert(whole[0] == blanks[0]);
        assert(whole.skip(1) =~= blanks.skip(1) + s);
        lemma_leading_blanks(blanks.skip(1), s);
    } else {
        assert(whole =~= s);
    }
}

/// An output is quoted only where the final output is spoken of, and behind the
/// last place that speaks of the end: of the repair, else of what comes finally,
/// else of the final output itself. What is said to be exactly so counts before
/// what is said to be exact.
pub proof fn lemma_quoted_output_is_the_final_one(transcript: Seq<char>, at: int)
    ensures
        !has_text(lower(transcript), "final stdout"@) ==> expected_stdout(transcript) is None,
        has_text(lower(transcript), "final stdout"@) && last_at(
            lower(transcript),
            "then repair"@,
            at,
        ) ==> final_part(transcript) == Some(at),
        !has_text(lower(transcript), "then repair"@) && last_at(lower(transcript), "finally"@, at)
            ==> final_part(transcript) == Some(at),
        !has_text(lower(transcript), "then repair"@) && !has_text(lower(transcript), "finally"@)
            && last_at(lower(transcript), "final stdout"@, at) ==> final_part(transcript) == Some(at),
        has_text(lower(transcript), "final stdout"@) && final_part(transcript) == Some(at)
            && value_after(transcript.skip(at), " exactly "@) is Some ==> expected_stdout(
            transcript,
        ) == value_after(transcript.skip(at), " exactly "@),
        has_text(lower(transcript), "final stdout"@) && final_part(transcript) == Some(at)
            && value_after(transcript.skip(at), " exactly "@) is None ==> expected_stdout(transcript)
            == value_after(transcript.skip(at), " exact "@),
{
    if last_at(lower(transcript), "then repair"@, at) {
        lemma_last_position(lower(transcript), "then repair"@, at);
    }
    if last_at(lower(transcript), "finally"@, at) {
        lemma_last_position(lower(transcript), "finally"@, at);
    }
    if last_at(lower(transcript), "final stdout"@, at) {
        lemma_last_position(lower(transcript), "final stdout"@, at);
    }
}

/// Nothing at all is no command, and neither is a phrase that is known to be
/// heard in silence.
pub proof fn lemma_silence_is_no_command(s: Seq<char>, start: Seq<char>)
    ensures
        is_noise(Seq::empty()),
        s.len() > 0 && is_noise_phrase(s) ==> is_noise(s),
        is_noise_start(start) && starts_with(s, start) ==> is_noise(s),
        s.len() > 0 && !is_noise_phrase(s) && (forall|p: Seq<char>|
            is_noise_start(p) ==> !#[trigger] starts_with(s, p)) ==> !is_noise(s),
{
    assert(is_noise_start("thank you"@));
    assert(is_noise_start("thanks for"@));
    assert(is_noise_start("you're welcome"@));
    assert(is_noise_start("you are welcome"@));
    assert(is_noise_start("subtitles by"@));
}

} // verus!
