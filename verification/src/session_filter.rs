//! The search behind the sessions pane: whether a session matches a query string.

use vstd::prelude::*;

use crate::models::Session;
use crate::text::{
    ascii_lower, chars_of, find_non_ws, is_ws, find_ws, lemma_non_ws_from_bounds, lemma_ws_from_bounds,
    non_ws_from, same_chars, sub_chars, to_ascii_lower, ws_from,
};

verus! {

broadcast use vstd::std_specs::vec::group_vec_axioms;

/// `str::to_lowercase`: the Unicode lowercase mapping of a string.
pub uninterp spec fn lowercase(s: Seq<char>) -> Seq<char>;

/// `str::to_lowercase`. Trusted: the result is the lowercase mapping of `s`, which depends on
/// `s` alone.
#[verifier::external_body]
fn to_lowercase(s: &str) -> (r: String)
    ensures
        r@ == lowercase(s@),
{
    s.to_lowercase()
}

/// The whitespace-separated words of `s` from position `i` on (`str::split_whitespace`).
pub open spec fn words_from(s: Seq<char>, i: int) -> Seq<Seq<char>>
    decreases s.len() - i,
{
    if i < 0 || i > s.len() {
        Seq::empty()
    } else {
        let j = non_ws_from(s, i);
        proof {
            lemma_non_ws_from_bounds(s, i);
        }
        if j >= s.len() {
            Seq::empty()
        } else {
            let e = ws_from(s, j);
            proof {
                lemma_ws_from_bounds(s, j);
                lemma_ws_from_bounds(s, j + 1);
            }
            seq![s.subrange(j, e)] + words_from(s, e)
        }
    }
}

/// `needle` occurs in `hay` starting at `i`.
pub open spec fn occurs_at(hay: Seq<char>, needle: Seq<char>, i: int) -> bool {
    0 <= i && i + needle.len() <= hay.len() && hay.subrange(i, i + needle.len()) == needle
}

/// `needle` occurs somewhere in `hay` (`str::contains`).
pub open spec fn has_substring(hay: Seq<char>, needle: Seq<char>) -> bool {
    exists|i: int| occurs_at(hay, needle, i)
}

/// The description searched: the session's description, or nothing.
pub open spec fn description_of(s: Session) -> Seq<char> {
    match s.description {
        Some(d) => d@,
        None => Seq::empty(),
    }
}

/// Whether one query word matches: `#tag` needs a tag equal to `tag` up to ASCII case
/// (`str::eq_ignore_ascii_case`); any other word must occur, lowercased, in the lowercased
/// topic or description.
pub open spec fn word_matches(s: Session, w: Seq<char>) -> bool {
    if w.len() > 0 && w[0] == '#' {
        exists|k: int| 0 <= k < s.tags@.len() && ascii_lower(#[trigger] s.tags@[k]@) == ascii_lower(w.drop_first())
    } else {
        has_substring(lowercase(s.topic@), lowercase(w)) || has_substring(lowercase(description_of(s)), lowercase(w))
    }
}

/// Every word matches.
pub open spec fn all_words_match(s: Session, words: Seq<Seq<char>>) -> bool
    decreases words.len(),
{
    if words.len() == 0 {
        true
    } else {
        word_matches(s, words[0]) && all_words_match(s, words.drop_first())
    }
}

/// Whether `s` matches `query`: every word of the query matches (an empty query matches
/// everything).
pub open spec fn matches_spec(s: Session, query: Seq<char>) -> bool {
    all_words_match(s, words_from(query, 0))
}

/// Matching is an AND over the query's words: a session matches exactly when each
/// whitespace-separated word of the query matches it.
pub proof fn law_matches_every_word(s: Session, query: Seq<char>)
    ensures
        matches_spec(s, query) <==> forall|k: int|
            0 <= k < words_from(query, 0).len() ==> word_matches(s, #[trigger] words_from(query, 0)[k]),
{
    lemma_all_words(s, words_from(query, 0));
}

proof fn lemma_all_words(s: Session, words: Seq<Seq<char>>)
    ensures
        all_words_match(s, words) <==> forall|k: int| 0 <= k < words.len() ==> word_matches(s, #[trigger] words[k]),
    decreases words.len(),
{
    if words.len() > 0 {
        let rest = words.drop_first();
        lemma_all_words(s, rest);
        if forall|k: int| 0 <= k < words.len() ==> word_matches(s, #[trigger] words[k]) {
            assert forall|k: int| 0 <= k < rest.len() implies word_matches(s, #[trigger] rest[k]) by {
                assert(rest[k] == words[k + 1]);
            }
        }
        if all_words_match(s, words) {
            assert forall|k: int| 0 <= k < words.len() implies word_matches(s, #[trigger] words[k]) by {
                if k > 0 {
                    assert(words[k] == rest[k - 1]);
                }
            }
        }
    }
}

/// A query of nothing but whitespace (or nothing at all) matches every session.
pub proof fn law_blank_query_matches_all(s: Session, query: Seq<char>)
    requires
        forall|i: int| 0 <= i < query.len() ==> is_ws(#[trigger] query[i]),
    ensures
        matches_spec(s, query),
{
    lemma_non_ws_from_bounds(query, 0);
    assert(words_from(query, 0) =~= Seq::<Seq<char>>::empty());
}

/// Whether `needle` occurs in `hay`.
pub fn contains_chars(hay: &Vec<char>, needle: &Vec<char>) -> (r: bool)
    ensures
        r == has_substring(hay@, needle@),
{
    if needle.len() > hay.len() {
        return false;
    }
    if needle.len() == 0 {
        assert(hay@.subrange(0, 0) =~= needle@);
        assert(occurs_at(hay@, needle@, 0));
        return true;
    }
    let last = hay.len() - needle.len();
    let mut i: usize = 0;
    while i <= last
        invariant
            last == hay@.len() - needle@.len(),
            1 <= needle@.len() <= hay@.len(),
            hay@.len() <= usize::MAX,
            i <= last + 1,
            forall|k: int| 0 <= k < i ==> !occurs_at(hay@, needle@, k),
        decreases last + 1 - i,
    {
        let mut j: usize = 0;
        let mut same = true;
        while j < needle.len()
            invariant
                i <= last,
                last == hay@.len() - needle@.len(),
                needle@.len() <= hay@.len(),
                hay@.len() <= usize::MAX,
                j <= needle@.len(),
                same == forall|m: int| 0 <= m < j ==> hay@[i + m] == needle@[m],
            decreases needle@.len() - j,
        {
            if hay[i + j] != needle[j] {
                same = false;
            }
            j = j + 1;
        }
        if same {
            assert(hay@.subrange(i as int, i + needle@.len()) =~= needle@);
            assert(occurs_at(hay@, needle@, i as int));
            return true;
        }
        proof {
            assert(!occurs_at(hay@, needle@, i as int)) by {
                if occurs_at(hay@, needle@, i as int) {
                    assert forall|m: int| 0 <= m < needle@.len() implies hay@[i + m] == needle@[m] by {
                        assert(hay@.subrange(i as int, i + needle@.len())[m] == hay@[i + m]);
                    }
                }
            }
        }
        i = i + 1;
    }
    proof {
        assert forall|k: int| !occurs_at(hay@, needle@, k) by {
            if 0 <= k < i {
            }
        }
    }
    false
}

/// Whether a plain (non-`#`) word matches, given the lowercased topic, description and word.
pub fn text_word_matches(lower_topic: &Vec<char>, lower_description: &Vec<char>, lower_word: &Vec<char>) -> (r: bool)
    ensures
        r == (has_substring(lower_topic@, lower_word@) || has_substring(lower_description@, lower_word@)),
{
    contains_chars(lower_topic, lower_word) || contains_chars(lower_description, lower_word)
}

/// Whether some tag equals `tag` up to ASCII case.
fn has_tag(s: &Session, tag: &Vec<char>) -> (r: bool)
    ensures
        r == exists|k: int| 0 <= k < s.tags@.len() && ascii_lower(#[trigger] s.tags@[k]@) == ascii_lower(tag@),
{
    let want = to_ascii_lower(tag);
    let mut k: usize = 0;
    while k < s.tags.len()
        invariant
            k <= s.tags@.len(),
            want@ == ascii_lower(tag@),
            forall|m: int| 0 <= m < k ==> ascii_lower(#[trigger] s.tags@[m]@) != ascii_lower(tag@),
        decreases s.tags@.len() - k,
    {
        let have = to_ascii_lower(&chars_of(s.tags[k].as_str()));
        if same_chars(&have, &want) {
            return true;
        }
        k = k + 1;
    }
    false
}

/// Whether `session` matches `query`. The query is split on whitespace into words, all of which
/// must match; an empty query matches everything. A word starting with `#` needs a tag equal
/// to the rest of the word up to ASCII case; any other word must occur, case-insensitively, in
/// the topic or the description.
pub fn matches(session: &Session, query: &str) -> (r: bool)
    ensures
        r == matches_spec(*session, query@),
{
    let q = chars_of(query);
    let topic = chars_of(to_lowercase(session.topic.as_str()).as_str());
    let description = match &session.description {
        Some(d) => chars_of(to_lowercase(d.as_str()).as_str()),
        None => chars_of(to_lowercase("").as_str()),
    };
    proof {
        assert(description@ == lowercase(description_of(*session))) by {
            if session.description is None {
                assert(""@ =~= Seq::<char>::empty()) by {
                    reveal_strlit("");
                }
            }
        }
    }
    let mut i: usize = 0;
    while i < q.len()
        invariant
            i <= q@.len(),
            q@ == query@,
            topic@ == lowercase(session.topic@),
            description@ == lowercase(description_of(*session)),
            matches_spec(*session, query@) == all_words_match(*session, words_from(q@, i as int)),
        decreases q@.len() - i,
    {
        let j = find_non_ws(&q, i);
        proof {
            lemma_non_ws_from_bounds(q@, i as int);
        }
        if j >= q.len() {
            assert(words_from(q@, i as int) =~= Seq::<Seq<char>>::empty());
            return true;
        }
        let e = find_ws(&q, j);
        proof {
            lemma_ws_from_bounds(q@, j as int);
            lemma_ws_from_bounds(q@, j + 1);
        }
        let w = sub_chars(&q, j, e);
        let ghost rest = words_from(q@, e as int);
        proof {
            assert(words_from(q@, i as int) == seq![w@] + rest);
            assert((seq![w@] + rest).drop_first() =~= rest);
            assert((seq![w@] + rest)[0] == w@);
        }
        let ok = if w.len() > 0 && w[0] == '#' {
            let tag = sub_chars(&w, 1, w.len());
            assert(tag@ =~= w@.drop_first());
            has_tag(session, &tag)
        } else {
            let word = chars_of(to_lowercase(string_of_chars(&w).as_str()).as_str());
            text_word_matches(&topic, &description, &word)
        };
        if !ok {
            return false;
        }
        i = e;
    }
    assert(words_from(q@, i as int) =~= Seq::<Seq<char>>::empty());
    true
}

fn string_of_chars(v: &Vec<char>) -> (r: String)
    ensures
        r@ == v@,
{
    crate::text::string_of(v.as_slice())
}

} // verus!
