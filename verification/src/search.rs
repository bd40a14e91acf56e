//! Finding words in text: the loose match by which a path is picked out of a
//! library.

use crate::text::is_whitespace;
use crate::text::whitespace;
use vstd::prelude::*;

verus! {

/// `word` stands in `hay` at position `i`.
pub open spec fn occurs_at(hay: Seq<char>, word: Seq<char>, i: int) -> bool {
    &&& 0 <= i
    &&& i + word.len() <= hay.len()
    &&& hay.subrange(i, i + word.len()) == word
}

/// `i` is the first position at which `word` stands in `hay`.
pub open spec fn first_at(hay: Seq<char>, word: Seq<char>, i: int) -> bool {
    &&& occurs_at(hay, word, i)
    &&& forall|j: int| 0 <= j < i ==> !occurs_at(hay, word, j)
}

/// The first position at which `word` stands in `hay`, if it stands there at
/// all.
#[verifier::opaque]
pub open spec fn first_occurrence(hay: Seq<char>, word: Seq<char>) -> Option<int> {
    if exists|i: int| first_at(hay, word, i) {
        Some(choose|i: int| first_at(hay, word, i))
    } else {
        None
    }
}

/// `word` stands somewhere in `hay`.
pub open spec fn contains_text(hay: Seq<char>, word: Seq<char>) -> bool {
    exists|i: int| occurs_at(hay, word, i)
}

/// The words of `s`: the runs of characters between white space, in order.
pub open spec fn words(s: Seq<char>) -> Seq<Seq<char>>
    decreases s.len(),
{
    if s.len() == 0 {
        Seq::empty()
    } else if is_whitespace(s.last()) {
        words(s.drop_last())
    } else if s.len() >= 2 && !is_whitespace(s[s.len() - 2]) {
        let before = words(s.drop_last());
        before.drop_last().push(before.last().push(s.last()))
    } else {
        words(s.drop_last()).push(seq![s.last()])
    }
}

/// Every word stands in `hay`, and the first place of each word is not
/// before the first place of the word before it.
pub open spec fn stand_in_order(hay: Seq<char>, ws: Seq<Seq<char>>) -> bool {
    &&& forall|k: int| 0 <= k < ws.len() ==> first_occurrence(hay, #[trigger] ws[k]) is Some
    &&& forall|k: int|
        0 < k < ws.len() ==> first_occurrence(hay, ws[k - 1])->0 <= first_occurrence(
            hay,
            #[trigger] ws[k],
        )->0
}

/// The words of `needle` stand in `hay` in order. Letter case counts.
pub open spec fn fuzzy_matches(needle: Seq<char>, hay: Seq<char>) -> bool {
    stand_in_order(hay, words(needle))
}

/// What `str::to_lowercase` makes of a text.
pub uninterp spec fn lowercase(s: Seq<char>) -> Seq<char>;

/// The lower-case form of `s`: `str::to_lowercase`.
///
/// The result follows Unicode's case tables and depends on the text alone;
/// the contract gives it a name and claims nothing else of it.
#[verifier::external_body]
fn to_lowercase(s: &str) -> (lower: String)
    ensures
        lower@ == lowercase(s@),
{
    s.to_lowercase()
}

/// A first position is the only first position.
pub proof fn lemma_first_occurrence_is(hay: Seq<char>, word: Seq<char>, i: int)
    requires
        first_at(hay, word, i),
    ensures
        first_occurrence(hay, word) == Some(i),
{
    reveal(first_occurrence);
    let j = choose|j: int| first_at(hay, word, j);
    if j < i {
        assert(!occurs_at(hay, word, j));
    } else if i < j {
        assert(!occurs_at(hay, word, i));
    }
}

/// A word that stands nowhere has no first position, and the other way
/// round.
pub proof fn lemma_first_occurrence_none(hay: Seq<char>, word: Seq<char>)
    requires
        forall|j: int| 0 <= j <= hay.len() ==> !occurs_at(hay, word, j),
    ensures
        first_occurrence(hay, word) is None,
        !contains_text(hay, word),
{
    reveal(first_occurrence);
    assert forall|i: int| !first_at(hay, word, i) by {
        if occurs_at(hay, word, i) {
            assert(0 <= i <= hay.len());
        }
    }
    assert forall|i: int| !occurs_at(hay, word, i) by {
        if occurs_at(hay, word, i) {
            assert(0 <= i <= hay.len());
        }
    }
}

/// The characters of `s`.
pub fn chars_of(s: &str) -> (chars: Vec<char>)
    ensures
        chars@ == s@,
{
    let n = s.unicode_len();
    let mut chars: Vec<char> = Vec::new();
    let mut i: usize = 0;
    while i < n
        invariant
            i <= n == s@.len(),
            chars@ == s@.subrange(0, i as int),
        decreases n - i,
    {
        chars.push(s.get_char(i));
        assert(chars@ =~= s@.subrange(0, i + 1));
        i += 1;
    }
    assert(s@.subrange(0, n as int) =~= s@);
    chars
}

/// Whether `word` stands in `hay` at position `at`.
fn stands_at(hay: &Vec<char>, word: &Vec<char>, at: usize) -> (r: bool)
    requires
        at + word@.len() <= hay@.len(),
    ensures
        r == occurs_at(hay@, word@, at as int),
{
    let n = hay.len();
    let mut k: usize = 0;
    while k < word.len()
        invariant
            k <= word@.len(),
            at + word@.len() <= hay@.len() == n,
            forall|j: int| 0 <= j < k ==> hay@[at + j] == word@[j],
        decreases word@.len() - k,
    {
        if hay[at + k] != word[k] {
            assert(hay@.subrange(at as int, at + word@.len())[k as int] != word@[k as int]);
            return false;
        }
        k += 1;
    }
    assert(hay@.subrange(at as int, at + word@.len()) =~= word@);
    true
}

/// The first position at which `word` stands in `hay`.
pub fn find_first(hay: &Vec<char>, word: &Vec<char>) -> (r: Option<usize>)
    ensures
        r is Some <==> contains_text(hay@, word@),
        match r {
            Some(i) => first_occurrence(hay@, word@) == Some(i as int) && first_at(
                hay@,
                word@,
                i as int,
            ),
            None => first_occurrence(hay@, word@) is None,
        },
{
    if word.len() > hay.len() {
        proof {
            lemma_first_occurrence_none(hay@, word@);
        }
        return None;
    }
    let last = hay.len() - word.len();
    let mut i: usize = 0;
    loop
        invariant
            i <= last,
            last + word@.len() == hay@.len(),
            forall|j: int| 0 <= j < i ==> !occurs_at(hay@, word@, j),
        ensures
            forall|j: int| 0 <= j <= last ==> !occurs_at(hay@, word@, j),
        decreases last - i,
    {
        if stands_at(hay, word, i) {
            proof {
                lemma_first_occurrence_is(hay@, word@, i as int);
            }
            return Some(i);
        }
        if i == last {
            break;
        }
        i += 1;
    }
    proof {
        assert forall|j: int| 0 <= j <= hay@.len() implies !occurs_at(hay@, word@, j) by {}
        lemma_first_occurrence_none(hay@, word@);
    }
    None
}

/// The values of a run of words.
pub open spec fn word_views(ws: Seq<Vec<char>>) -> Seq<Seq<char>> {
    Seq::new(ws.len(), |i: int| ws[i]@)
}

/// The words of `text`, in order.
pub fn split_words(text: &Vec<char>) -> (ws: Vec<Vec<char>>)
    ensures
        word_views(ws@) == words(text@),
{
    let mut done: Vec<Vec<char>> = Vec::new();
    let mut open: Vec<char> = Vec::new();
    let mut i: usize = 0;
    assert(text@.take(0) =~= Seq::<char>::empty());
    assert(word_views(done@) =~= Seq::<Seq<char>>::empty());
    while i < text.len()
        invariant
            i <= text@.len(),
            open@.len() > 0 <==> i > 0 && !is_whitespace(text@[i - 1]),
            open@.len() > 0 ==> words(text@.take(i as int)) == word_views(done@).push(open@),
            open@.len() == 0 ==> words(text@.take(i as int)) == word_views(done@),
        decreases text@.len() - i,
    {
        let c = text[i];
        proof {
            let next = text@.take(i + 1);
            assert(next.drop_last() =~= text@.take(i as int));
            assert(next.last() == c);
            if i > 0 {
                assert(next[next.len() - 2] == text@[i - 1]);
            }
        }
        if whitespace(c) {
            if open.len() > 0 {
                assert(word_views(done@.push(open)) =~= word_views(done@).push(open@));
                done.push(open);
                open = Vec::new();
            }
        } else {
            proof {
                let next = text@.take(i + 1);
                let before = words(next.drop_last());
                if open@.len() > 0 {
                    assert(before.drop_last() =~= word_views(done@));
                    assert(before.last() == open@);
                    assert(words(next) == word_views(done@).push(open@.push(c)));
                } else {
                    assert(open@.push(c) =~= seq![c]);
                    assert(words(next) == word_views(done@).push(seq![c]));
                }
            }
            open.push(c);
        }
        i += 1;
    }
    assert(text@.take(i as int) =~= text@);
    if open.len() > 0 {
        assert(word_views(done@.push(open)) =~= word_views(done@).push(open@));
        done.push(open);
    }
    done
}

/// Whether the words of `needle` stand in `hay` in order, letter for letter.
pub fn match_words(needle: &Vec<char>, hay: &Vec<char>) -> (r: bool)
    ensures
        r == fuzzy_matches(needle@, hay@),
{
    let ws = split_words(needle);
    let ghost views = word_views(ws@);
    let mut last: usize = 0;
    let mut k: usize = 0;
    while k < ws.len()
        invariant
            k <= ws@.len(),
            views == word_views(ws@),
            views == words(needle@),
            forall|j: int| 0 <= j < k ==> first_occurrence(hay@, #[trigger] views[j]) is Some,
            forall|j: int|
                0 < j < k ==> first_occurrence(hay@, views[j - 1])->0 <= first_occurrence(
                    hay@,
                    #[trigger] views[j],
                )->0,
            k > 0 ==> first_occurrence(hay@, views[k - 1]) == Some(last as int),
        decreases ws@.len() - k,
    {
        assert(views[k as int] == ws@[k as int]@);
        match find_first(hay, &ws[k]) {
            None => {
                assert(first_occurrence(hay@, views[k as int]) is None);
                return false;
            },
            Some(index) => {
                if k > 0 && index < last {
                    assert(first_occurrence(hay@, views[k - 1])->0 > first_occurrence(
                        hay@,
                        views[k as int],
                    )->0);
                    return false;
                }
                last = index;
            },
        }
        k += 1;
    }
    true
}

/// Whether `haystack` holds the words of `needle` in their order, whatever
/// the letter case: each word must occur, and must occur first no earlier
/// than the word before it does.
pub fn fuzzy_match_string(needle: &str, haystack: &str) -> (r: bool)
    ensures
        r == fuzzy_matches(lowercase(needle@), lowercase(haystack@)),
{
    let needle = to_lowercase(needle);
    let haystack = to_lowercase(haystack);
    match_words(&chars_of(needle.as_str()), &chars_of(haystack.as_str()))
}

} // verus!
