//! What the white space around words and between them does to a text.

use vstd::prelude::*;

use crate::text::{
    has_text, is_white, joined, lemma_word_len, lower, occurs_at, squeezed, trim_end_of,
    trim_start_of, trimmed, word_len, words, CharClass,
};

verus! {

/// There is white space in the text and nothing else.
pub open spec fn all_white(s: Seq<char>) -> bool {
    forall|i: int| 0 <= i < s.len() ==> is_white(#[trigger] s[i])
}

/// There is no white space in the text.
pub open spec fn no_white(s: Seq<char>) -> bool {
    forall|i: int| 0 <= i < s.len() ==> !is_white(#[trigger] s[i])
}

/// A word ends between the two texts, if one ends or begins there.
pub open spec fn parted(a: Seq<char>, b: Seq<char>) -> bool {
    ||| a.len() == 0
    ||| b.len() == 0
    ||| is_white(a.last())
    ||| is_white(b[0])
}

/// The first word of a text has no white space, and some behind it.
pub(crate) proof fn lemma_first_word(s: Seq<char>)
    ensures
        word_len(s) <= s.len(),
        no_white(s.take(word_len(s) as int)),
        word_len(s) < s.len() ==> is_white(s[word_len(s) as int]),
{
    lemma_word_len(s);
}

/// The first word of a text ends where the white space begins.
proof fn lemma_word_len_is(s: Seq<char>, n: int)
    requires
        0 <= n <= s.len(),
        no_white(s.take(n)),
        n < s.len() ==> is_white(s[n]),
    ensures
        word_len(s) == n,
{
    lemma_first_word(s);
    if word_len(s) < n {
        assert(s.take(n)[word_len(s) as int] == s[word_len(s) as int]);
    }
    if n < word_len(s) {
        assert(s.take(word_len(s) as int)[n] == s[n]);
    }
}

/// White space has no words.
pub(crate) proof fn lemma_white_has_no_words(s: Seq<char>)
    requires
        all_white(s),
    ensures
        words(s) == Seq::<Seq<char>>::empty(),
    decreases s.len(),
{
    if s.len() > 0 {
        lemma_white_has_no_words(s.skip(1));
    }
}

/// A text without white space is one word, if it is not empty.
pub(crate) proof fn lemma_one_word(s: Seq<char>)
    requires
        no_white(s),
    ensures
        words(s) == (if s.len() == 0 {
            Seq::<Seq<char>>::empty()
        } else {
            seq![s]
        }),
{
    if s.len() > 0 {
        assert(s.take(s.len() as int) =~= s);
        lemma_word_len_is(s, s.len() as int);
        assert(s.skip(s.len() as int) =~= Seq::<char>::empty());
        assert(!is_white(s[0]));
        assert(words(s) == seq![s] + words(Seq::empty()));
        assert(words(s) =~= seq![s]);
    }
}

/// Where no word goes across, the words of two texts are the words of the one
/// and then those of the other.
pub proof fn lemma_words_of_two(a: Seq<char>, b: Seq<char>)
    requires
        parted(a, b),
    ensures
        words(a + b) == words(a) + words(b),
    decreases a.len(),
{
    let whole = a + b;
    if a.len() == 0 {
        assert(whole =~= b);
        assert(words(a) + words(b) =~= words(b));
    } else if b.len() == 0 {
        assert(whole =~= a);
        assert(words(a) + words(b) =~= words(a));
    } else if is_white(a[0]) {
        assert(whole.skip(1) =~= a.skip(1) + b);
        if a.len() > 1 {
            assert(a.skip(1).last() == a.last());
        }
        lemma_words_of_two(a.skip(1), b);
    } else {
        let n = word_len(a) as int;
        lemma_first_word(a);
        assert(whole.take(n) =~= a.take(n));
        if n < a.len() {
            assert(whole[n] == a[n]);
        } else {
            assert(a.take(n)[n - 1] == a.last());
            assert(whole[n] == b[0]);
        }
        lemma_word_len_is(whole, n);
        assert(whole.skip(n) =~= a.skip(n) + b);
        if n < a.len() {
            assert(a.skip(n).last() == a.last());
        }
        lemma_words_of_two(a.skip(n), b);
        assert(words(a) == seq![a.take(n)] + words(a.skip(n)));
        assert(words(whole) == seq![whole.take(n)] + words(whole.skip(n)));
        assert(words(whole) =~= words(a) + words(b));
    }
}

/// White space around a text leaves its words as they are.
pub proof fn lemma_outer_blanks(before: Seq<char>, s: Seq<char>, after: Seq<char>)
    requires
        all_white(before),
        all_white(after),
    ensures
        words(before + s + after) == words(s),
{
    lemma_white_has_no_words(before);
    lemma_white_has_no_words(after);
    lemma_words_of_two(before, s);
    lemma_words_of_two(before + s, after);
    assert(words(before + s) =~= words(s));
    assert(words(before + s + after) =~= words(s));
}

/// How wide a gap between words is, and of what white space, leaves the words
/// as they are.
pub proof fn lemma_wider_gaps(a: Seq<char>, gap: Seq<char>, other: Seq<char>, b: Seq<char>)
    requires
        all_white(gap) && gap.len() > 0,
        all_white(other) && other.len() > 0,
    ensures
        words(a + gap + b) == words(a + other + b),
{
    lemma_white_has_no_words(gap);
    lemma_white_has_no_words(other);
    lemma_words_of_two(a, gap);
    lemma_words_of_two(a, other);
    lemma_words_of_two(a + gap, b);
    lemma_words_of_two(a + other, b);
    assert(words(a + gap) =~= words(a));
    assert(words(a + other) =~= words(a));
}

/// The text has no white space at its ends, and only single spaces within.
pub open spec fn is_tidy(s: Seq<char>) -> bool {
    &&& s.len() > 0 ==> !is_white(s[0]) && !is_white(s.last())
    &&& forall|i: int|
        0 <= i < s.len() && is_white(#[trigger] s[i]) ==> s[i] == ' ' && !is_white(s[i + 1])
}

proof fn lemma_joined_from_the_front(parts: Seq<Seq<char>>, separator: Seq<char>)
    requires
        parts.len() > 1,
    ensures
        joined(parts, separator) == parts[0] + separator + joined(parts.skip(1), separator),
    decreases parts.len(),
{
    let rest = parts.skip(1);
    let shorter = parts.drop_last();
    if parts.len() == 2 {
        assert(joined(shorter, separator) == parts[0]);
        assert(joined(rest, separator) == parts[1]);
    } else {
        lemma_joined_from_the_front(shorter, separator);
        assert(shorter.skip(1) =~= rest.drop_last());
        assert(joined(rest, separator) == joined(rest.drop_last(), separator) + separator
            + rest.last());
        assert(joined(parts, separator) =~= parts[0] + separator + joined(rest, separator));
    }
}

/// A tidy text is its words with single spaces between them.
pub(crate) proof fn lemma_tidy_stays(s: Seq<char>)
    requires
        is_tidy(s),
    ensures
        squeezed(s) == s,
    decreases s.len(),
{
    if s.len() > 0 {
        let n = word_len(s) as int;
        lemma_first_word(s);
        let tail = s.skip(n);
        if n == s.len() {
            assert(s.take(n) =~= s);
            lemma_one_word(s);
            assert(squeezed(s) == s);
        } else {
            assert(s[n] == ' ');
            assert(n + 1 < s.len());
            let rest = s.skip(n + 1);
            assert forall|i: int|
                0 <= i < rest.len() && is_white(#[trigger] rest[i]) implies rest[i] == ' '
                && !is_white(rest[i + 1]) by {
                assert(rest[i] == s[n + 1 + i]);
                if i + 1 < rest.len() {
                    assert(rest[i + 1] == s[n + 2 + i]);
                } else {
                    assert(rest[i] == s.last());
                }
            }
            assert(rest.last() == s.last());
            assert(rest[0] == s[n + 1]);
            lemma_tidy_stays(rest);
            assert(tail[0] == s[n]);
            assert(tail.skip(1) =~= rest);
            assert(words(tail) == words(rest));
            assert(words(s) == seq![s.take(n)] + words(rest));
            lemma_first_word(rest);
            assert(words(rest).len() > 0);
            assert(words(s).skip(1) =~= words(rest));
            lemma_joined_from_the_front(words(s), " "@);
            reveal_strlit(" ");
            assert(s.take(n) + " "@ + rest =~= s);
        }
    } else {
        assert(squeezed(s) =~= s);
    }
}

/// The words of a text are not empty, and have no white space in them.
pub(crate) proof fn lemma_words_are_words(s: Seq<char>)
    ensures
        forall|i: int|
            0 <= i < words(s).len() ==> (#[trigger] words(s)[i]).len() > 0 && no_white(words(s)[i]),
    decreases s.len(),
{
    if s.len() > 0 {
        if is_white(s[0]) {
            lemma_words_are_words(s.skip(1));
            assert(words(s) == words(s.skip(1)));
        } else {
            let n = word_len(s) as int;
            lemma_first_word(s);
            lemma_words_are_words(s.skip(n));
            assert forall|i: int| 0 <= i < words(s).len() implies (#[trigger] words(s)[i]).len() > 0
                && no_white(words(s)[i]) by {
                if i > 0 {
                    assert(words(s)[i] == words(s.skip(n))[i - 1]);
                }
            }
        }
    }
}

proof fn lemma_joined_is_tidy(parts: Seq<Seq<char>>)
    requires
        forall|i: int|
            0 <= i < parts.len() ==> (#[trigger] parts[i]).len() > 0 && no_white(parts[i]),
    ensures
        is_tidy(joined(parts, " "@)),
        parts.len() > 0 ==> joined(parts, " "@).len() > 0,
    decreases parts.len(),
{
    reveal_strlit(" ");
    if parts.len() == 1 {
        let word = parts[0];
        assert(!is_white(word[0]) && !is_white(word.last()));
    } else if parts.len() > 1 {
        let shorter = parts.drop_last();
        lemma_joined_is_tidy(shorter);
        let head = joined(shorter, " "@);
        let word = parts.last();
        let whole = joined(parts, " "@);
        assert(word == parts[parts.len() - 1]);
        assert(whole == head + " "@ + word);
        assert(!is_white(word[0]) && !is_white(word.last()));
        assert(whole[0] == head[0]);
        assert(whole.last() == word.last());
        assert forall|i: int| 0 <= i < whole.len() && is_white(#[trigger] whole[i]) implies whole[i]
            == ' ' && !is_white(whole[i + 1]) by {
            if i < head.len() {
                assert(whole[i] == head[i]);
                if i + 1 < head.len() {
                    assert(whole[i + 1] == head[i + 1]);
                } else {
                    assert(head[i] == head.last());
                }
            } else if i == head.len() {
                assert(whole[i + 1] == word[0]);
            } else {
                assert(whole[i] == word[i - head.len() - 1]);
            }
        }
    }
}

/// Squeezed text is tidy, so that to squeeze it again changes nothing.
pub proof fn lemma_squeezed_is_tidy(s: Seq<char>)
    ensures
        is_tidy(squeezed(s)),
        squeezed(squeezed(s)) == squeezed(s),
{
    lemma_words_are_words(s);
    lemma_joined_is_tidy(words(s));
    lemma_tidy_stays(squeezed(s));
}

/// To trim a text takes away the white space around it and nothing else.
pub proof fn lemma_trimmed_is_the_core(before: Seq<char>, core: Seq<char>, after: Seq<char>)
    requires
        all_white(before),
        all_white(after),
        core.len() > 0 ==> !is_white(core[0]) && !is_white(core.last()),
    ensures
        trimmed(before + core + after) == core,
    decreases before.len() + after.len(),
{
    let whole = before + core + after;
    if before.len() > 0 {
        assert(whole[0] == before[0]);
        assert(whole.skip(1) =~= before.skip(1) + core + after);
        lemma_trimmed_is_the_core(before.skip(1), core, after);
    } else {
        assert(whole =~= core + after);
        if core.len() == 0 {
            assert(whole =~= after);
            lemma_white_is_trimmed(after);
            assert(core =~= Seq::<char>::empty());
        } else {
            assert(whole[0] == core[0]);
            assert(trim_start_of(whole, CharClass::White) == whole);
            lemma_end_is_trimmed(core, after);
        }
    }
}

proof fn lemma_end_is_trimmed(core: Seq<char>, after: Seq<char>)
    requires
        all_white(after),
        core.len() > 0 && !is_white(core.last()),
    ensures
        trim_end_of(core + after, CharClass::White) == core,
    decreases after.len(),
{
    if after.len() == 0 {
        assert(core + after =~= core);
    } else {
        assert((core + after).last() == after.last());
        assert(after[after.len() - 1] == after.last());
        assert((core + after).drop_last() =~= core + after.drop_last());
        lemma_end_is_trimmed(core, after.drop_last());
    }
}

pub(crate) proof fn lemma_white_is_trimmed(s: Seq<char>)
    requires
        all_white(s),
    ensures
        trimmed(s) == Seq::<char>::empty(),
    decreases s.len(),
{
    if s.len() > 0 {
        lemma_white_is_trimmed(s.skip(1));
    } else {
        assert(s =~= Seq::<char>::empty());
    }
}

/// Trimmed text has no white space at its ends, and stands in the text between
/// white space.
pub proof fn lemma_trimmed_has_plain_ends(s: Seq<char>)
    ensures
        trimmed(s).len() > 0 ==> !is_white(trimmed(s)[0]) && !is_white(trimmed(s).last()),
        trimmed(s).len() == 0 <==> all_white(s),
        exists|at: int| #[trigger]
            occurs_at(s, trimmed(s), at) && all_white(s.take(at)) && all_white(
                s.skip(at + trimmed(s).len()),
            ),
    decreases s.len(),
{
    let begun = trim_start_of(s, CharClass::White);
    let at = lemma_start_is_trimmed(s);
    lemma_trimmed_end(begun);
    let core = trimmed(s);
    assert(s.subrange(at, at + core.len()) =~= core);
    assert(s.skip(at + core.len()) =~= begun.skip(core.len() as int));
    assert(occurs_at(s, core, at));
    if core.len() == 0 {
        assert forall|i: int| 0 <= i < s.len() implies is_white(#[trigger] s[i]) by {
            if i < at {
                assert(s.take(at)[i] == s[i]);
            } else {
                assert(s.skip(at + core.len())[i - at] == s[i]);
            }
        }
    } else {
        assert(core[0] == begun[0]);
        assert(s[at] == core[0]);
    }
}

proof fn lemma_start_is_trimmed(s: Seq<char>) -> (at: int)
    ensures
        0 <= at <= s.len(),
        all_white(s.take(at)),
        trim_start_of(s, CharClass::White) == s.skip(at),
        at < s.len() ==> !is_white(s[at]),
    decreases s.len(),
{
    if s.len() > 0 && is_white(s[0]) {
        let at = lemma_start_is_trimmed(s.skip(1));
        assert(s.skip(1).skip(at) =~= s.skip(at + 1));
        assert forall|i: int| 0 <= i < s.take(at + 1).len() implies is_white(
            #[trigger] s.take(at + 1)[i],
        ) by {
            if i > 0 {
                assert(s.take(at + 1)[i] == s.skip(1).take(at)[i - 1]);
            }
        }
        at + 1
    } else {
        assert(s.skip(0) =~= s);
        0
    }
}

proof fn lemma_trimmed_end(s: Seq<char>)
    ensures
        trim_end_of(s, CharClass::White).len() <= s.len(),
        trim_end_of(s, CharClass::White) == s.take(trim_end_of(s, CharClass::White).len() as int),
        all_white(s.skip(trim_end_of(s, CharClass::White).len() as int)),
        trim_end_of(s, CharClass::White).len() > 0 ==> !is_white(
            trim_end_of(s, CharClass::White).last(),
        ),
    decreases s.len(),
{
    let core = trim_end_of(s, CharClass::White);
    if s.len() > 0 && is_white(s.last()) {
        let shorter = s.drop_last();
        lemma_trimmed_end(shorter);
        assert(s.take(core.len() as int) =~= shorter.take(core.len() as int));
        assert forall|i: int| 0 <= i < s.skip(core.len() as int).len() implies is_white(
            #[trigger] s.skip(core.len() as int)[i],
        ) by {
            if i < shorter.skip(core.len() as int).len() {
                assert(s.skip(core.len() as int)[i] == shorter.skip(core.len() as int)[i]);
            }
        }
    } else {
        assert(s.take(s.len() as int) =~= s);
    }
}

/// A phrase that stands in a text, written with whatever capitals, stands in the
/// trimmed text in lower case, if no white space is at the ends of the phrase.
pub(crate) proof fn lemma_phrase_survives(before: Seq<char>, phrase: Seq<char>, after: Seq<char>)
    requires
        phrase.len() > 0,
        !is_white(phrase[0]),
        !is_white(phrase.last()),
    ensures
        has_text(lower(trimmed(before + phrase + after)), lower(phrase)),
        has_text(lower(before + phrase + after), lower(phrase)),
        has_text(before + phrase + after, phrase),
{
    let s = before + phrase + after;
    let p = before.len() as int;
    lemma_trimmed_has_plain_ends(s);
    let core = trimmed(s);
    let at = choose|at: int| #[trigger]
        occurs_at(s, core, at) && all_white(s.take(at)) && all_white(s.skip(at + core.len()));
    assert(s[p] == phrase[0]);
    assert(s[p + phrase.len() - 1] == phrase.last());
    if p < at {
        assert(s.take(at)[p] == s[p]);
    }
    if p + phrase.len() > at + core.len() {
        let end = p + phrase.len() - 1;
        assert(s.skip(at + core.len())[end - at - core.len()] == s[end]);
    }
    let l = lower(core);
    let want = lower(phrase);
    assert forall|i: int| 0 <= i < want.len() implies l.subrange(p - at, p - at + want.len())[i]
        == want[i] by {
        assert(core[p - at + i] == s.subrange(at, at + core.len())[p - at + i]);
        assert(s[p + i] == phrase[i]);
    }
    assert(l.subrange(p - at, p - at + want.len()) =~= want);
    assert(occurs_at(l, want, p - at));
    let whole = lower(s);
    assert(whole.subrange(p, p + want.len()) =~= want);
    assert(occurs_at(whole, want, p));
    assert(s.subrange(p, p + phrase.len()) =~= phrase);
    assert(occurs_at(s, phrase, p));
}

/// What stands in a trimmed text in lower case stands in the text in lower case.
pub(crate) proof fn lemma_trimmed_phrase_was_there(s: Seq<char>, phrase: Seq<char>)
    requires
        has_text(lower(trimmed(s)), phrase),
    ensures
        has_text(lower(s), phrase),
{
    lemma_trimmed_has_plain_ends(s);
    let core = trimmed(s);
    let at = choose|at: int| #[trigger]
        occurs_at(s, core, at) && all_white(s.take(at)) && all_white(s.skip(at + core.len()));
    let i = choose|i: int| occurs_at(lower(core), phrase, i);
    assert forall|k: int| 0 <= k < phrase.len() implies lower(s).subrange(
        at + i,
        at + i + phrase.len(),
    )[k] == phrase[k] by {
        assert(core[i + k] == s.subrange(at, at + core.len())[i + k]);
        assert(lower(core)[i + k] == lower(core).subrange(i, i + phrase.len())[k]);
    }
    assert(lower(s).subrange(at + i, at + i + phrase.len()) =~= phrase);
    assert(occurs_at(lower(s), phrase, at + i));
}

/// A phrase that stands in a text, written with whatever capitals, stands in the
/// text in lower case.
pub(crate) proof fn lemma_phrase_stands(before: Seq<char>, phrase: Seq<char>, after: Seq<char>)
    ensures
        has_text(lower(before + phrase + after), lower(phrase)),
        has_text(before + phrase + after, phrase),
{
    let s = before + phrase + after;
    let p = before.len() as int;
    assert(lower(s).subrange(p, p + phrase.len()) =~= lower(phrase));
    assert(occurs_at(lower(s), lower(phrase), p));
    assert(s.subrange(p, p + phrase.len()) =~= phrase);
    assert(occurs_at(s, phrase, p));
}

} // verus!
