//! The fuzzy ranking engine: which entries a query keeps, and in what order.

use crate::entry::{
    is_descending, lemma_sorted_descending_contains, lemma_sorted_descending_fixed,
    lemma_sorted_descending_ordered, lemma_sorted_descending_permutes, sort_descending,
    sorted_descending, SortKey, TryEntry,
};
use vstd::prelude::*;

verus! {

/// Names and queries are matched only while they hold, together, no more
/// characters than this. The matcher adds its points up in 32 bits; far below
/// this many characters the sum cannot leave that range.
pub const MATCH_LIMIT: usize = 0x100_0000;

/// Whether `c` is one of the letters `A` to `Z`.
pub open spec fn is_ascii_upper(c: char) -> bool {
    'A' <= c <= 'Z'
}

/// Whether `s` holds one of the letters `A` to `Z`.
pub open spec fn has_ascii_upper(s: Seq<char>) -> bool {
    exists|i: int| 0 <= i < s.len() && is_ascii_upper(#[trigger] s[i])
}

/// `c`, or its lower-case form where it is one of the letters `A` to `Z`.
pub open spec fn ascii_lower(c: char) -> char {
    if is_ascii_upper(c) {
        ((c as u32) + 32) as char
    } else {
        c
    }
}

/// Whether the matcher takes `a` and `b` for the same character.
pub open spec fn same_char(a: char, b: char, case_sensitive: bool) -> bool {
    if case_sensitive {
        a == b
    } else {
        ascii_lower(a) == ascii_lower(b)
    }
}

/// Whether the characters of `query` are met in `name`, in their order, when
/// `name` is read from its start and each is taken where it is first met.
pub open spec fn occurs_in_order(name: Seq<char>, query: Seq<char>, case_sensitive: bool) -> bool
    decreases name.len(),
{
    if query.len() == 0 {
        true
    } else if name.len() == 0 {
        false
    } else if same_char(name[0], query[0], case_sensitive) {
        occurs_in_order(name.skip(1), query.skip(1), case_sensitive)
    } else {
        occurs_in_order(name.skip(1), query, case_sensitive)
    }
}

/// Whether `query` matches `name`: its characters occur in `name` in order,
/// not necessarily side by side. A query without capital letters matches
/// letters of either case; one with a capital letter matches exactly.
pub open spec fn is_fuzzy_match(name: Seq<char>, query: Seq<char>) -> bool {
    occurs_in_order(name, query, has_ascii_upper(query))
}

/// Whether `places` says where in `name` each character of `query` is found:
/// one place for each character, the places in rising order.
pub open spec fn is_embedding(
    places: Seq<int>,
    name: Seq<char>,
    query: Seq<char>,
    case_sensitive: bool,
) -> bool {
    &&& places.len() == query.len()
    &&& forall|k: int|
        0 <= k < places.len() ==> 0 <= #[trigger] places[k] < name.len() && same_char(
            name[places[k]],
            query[k],
            case_sensitive,
        )
    &&& forall|j: int, k: int| 0 <= j < k < places.len() ==> places[j] < places[k]
}

/// Whether `name` contains the characters of `query` as an ordered
/// subsequence.
pub open spec fn is_subsequence(name: Seq<char>, query: Seq<char>, case_sensitive: bool) -> bool {
    exists|places: Seq<int>| is_embedding(places, name, query, case_sensitive)
}

proof fn lemma_occurrence_has_places(name: Seq<char>, query: Seq<char>, case_sensitive: bool)
    requires
        occurs_in_order(name, query, case_sensitive),
    ensures
        is_subsequence(name, query, case_sensitive),
    decreases name.len(),
{
    if query.len() == 0 {
        assert(is_embedding(Seq::<int>::empty(), name, query, case_sensitive));
    } else {
        let tail = name.skip(1);
        if same_char(name[0], query[0], case_sensitive) {
            let rest = query.skip(1);
            lemma_occurrence_has_places(tail, rest, case_sensitive);
            let inner = choose|p: Seq<int>| is_embedding(p, tail, rest, case_sensitive);
            let places = Seq::new(query.len(), |k: int| if k == 0 { 0 } else { inner[k - 1] + 1 });
            assert forall|k: int| 0 <= k < places.len() implies 0 <= #[trigger] places[k]
                < name.len() && same_char(name[places[k]], query[k], case_sensitive) by {
                if k > 0 {
                    assert(0 <= inner[k - 1] < tail.len());
                    assert(tail[inner[k - 1]] == name[inner[k - 1] + 1]);
                    assert(rest[k - 1] == query[k]);
                }
            }
            assert forall|j: int, k: int| 0 <= j < k < places.len() implies places[j]
                < places[k] by {
                if j > 0 {
                    assert(inner[j - 1] < inner[k - 1]);
                } else {
                    assert(0 <= inner[k - 1]);
                }
            }
            assert(is_embedding(places, name, query, case_sensitive));
        } else {
            lemma_occurrence_has_places(tail, query, case_sensitive);
            let inner = choose|p: Seq<int>| is_embedding(p, tail, query, case_sensitive);
            let places = Seq::new(query.len(), |k: int| inner[k] + 1);
            assert forall|k: int| 0 <= k < places.len() implies 0 <= #[trigger] places[k]
                < name.len() && same_char(name[places[k]], query[k], case_sensitive) by {
                assert(0 <= inner[k] < tail.len());
                assert(tail[inner[k]] == name[inner[k] + 1]);
            }
            assert forall|j: int, k: int| 0 <= j < k < places.len() implies places[j]
                < places[k] by {
                assert(inner[j] < inner[k]);
            }
            assert(is_embedding(places, name, query, case_sensitive));
        }
    }
}

proof fn lemma_places_give_occurrence(
    places: Seq<int>,
    name: Seq<char>,
    query: Seq<char>,
    case_sensitive: bool,
)
    requires
        is_embedding(places, name, query, case_sensitive),
    ensures
        occurs_in_order(name, query, case_sensitive),
    decreases name.len(),
{
    if query.len() > 0 {
        assert(0 <= places[0] < name.len());
        let tail = name.skip(1);
        if same_char(name[0], query[0], case_sensitive) {
            let rest = query.skip(1);
            let inner = Seq::new(rest.len(), |k: int| places[k + 1] - 1);
            assert forall|k: int| 0 <= k < inner.len() implies 0 <= #[trigger] inner[k]
                < tail.len() && same_char(tail[inner[k]], rest[k], case_sensitive) by {
                assert(places[0] < places[k + 1]);
                assert(0 <= places[k + 1] < name.len());
                assert(tail[inner[k]] == name[places[k + 1]]);
                assert(rest[k] == query[k + 1]);
            }
            assert forall|j: int, k: int| 0 <= j < k < inner.len() implies inner[j] < inner[k] by {
                assert(places[j + 1] < places[k + 1]);
            }
            lemma_places_give_occurrence(inner, tail, rest, case_sensitive);
        } else {
            let inner = Seq::new(query.len(), |k: int| places[k] - 1);
            assert forall|k: int| 0 <= k < inner.len() implies 0 <= #[trigger] inner[k]
                < tail.len() && same_char(tail[inner[k]], query[k], case_sensitive) by {
                assert(0 <= places[k] < name.len());
                if k > 0 {
                    assert(places[0] < places[k]);
                }
                assert(places[k] != 0);
                assert(tail[inner[k]] == name[places[k]]);
            }
            assert forall|j: int, k: int| 0 <= j < k < inner.len() implies inner[j] < inner[k] by {
                assert(places[j] < places[k]);
            }
            lemma_places_give_occurrence(inner, tail, query, case_sensitive);
        }
    }
}

/// To take each character where it is first met finds the query whenever
/// its characters occur in the name in order at all: a query matches a name
/// exactly when it is an ordered subsequence of it, up to the case of the
/// letters `A` to `Z` for a query without capitals. A name that holds the
/// very characters of the query in order is matched whatever the case.
pub proof fn lemma_match_is_subsequence(name: Seq<char>, query: Seq<char>)
    ensures
        is_fuzzy_match(name, query) <==> is_subsequence(name, query, has_ascii_upper(query)),
        is_subsequence(name, query, true) ==> is_fuzzy_match(name, query),
{
    let case_sensitive = has_ascii_upper(query);
    if occurs_in_order(name, query, case_sensitive) {
        lemma_occurrence_has_places(name, query, case_sensitive);
    }
    if is_subsequence(name, query, case_sensitive) {
        let places = choose|p: Seq<int>| is_embedding(p, name, query, case_sensitive);
        lemma_places_give_occurrence(places, name, query, case_sensitive);
    }
    if is_subsequence(name, query, true) {
        let places = choose|p: Seq<int>| is_embedding(p, name, query, true);
        assert(is_embedding(places, name, query, case_sensitive));
        lemma_places_give_occurrence(places, name, query, case_sensitive);
    }
}

/// The points that the skim matcher gives to the best alignment of `pattern`
/// with `choice`.
pub uninterp spec fn skim_points(choice: Seq<char>, pattern: Seq<char>) -> i64;

/// The score of `name` under `query`, or `None` where `query` does not match
/// or the two are longer than is matched.
pub open spec fn match_score(name: Seq<char>, query: Seq<char>) -> Option<i64> {
    if name.len() + query.len() <= MATCH_LIMIT && is_fuzzy_match(name, query) {
        Some(skim_points(name, query))
    } else {
        None
    }
}

/// Calls `fuzzy_match` of `fuzzy_matcher`'s `SkimMatcherV2` in its default
/// configuration. The matcher answers `None` exactly when the pattern is no
/// match in the sense of [`is_fuzzy_match`], and otherwise gives its points
/// for the best alignment.
#[verifier::external_body]
fn skim_match(choice: &str, pattern: &str) -> (score: Option<i64>)
    requires
        choice@.len() + pattern@.len() <= MATCH_LIMIT,
    ensures
        score == if is_fuzzy_match(choice@, pattern@) {
            Some(skim_points(choice@, pattern@))
        } else {
            None::<i64>
        },
{
    fuzzy_matcher::FuzzyMatcher::fuzzy_match(
        &fuzzy_matcher::skim::SkimMatcherV2::default(),
        choice,
        pattern,
    )
}

/// Scores `name` against `query`.
pub fn fuzzy_score(name: &str, query: &str) -> (score: Option<i64>)
    ensures
        score == match_score(name@, query@),
{
    let name_len = name.unicode_len();
    let query_len = query.unicode_len();
    if name_len <= MATCH_LIMIT && query_len <= MATCH_LIMIT - name_len {
        skim_match(name, query)
    } else {
        None
    }
}

/// The entries that `query` matches, in their given order, each with its score.
pub open spec fn scored_matches(entries: Seq<TryEntry>, query: Seq<char>) -> Seq<TryEntry>
    decreases entries.len(),
{
    if entries.len() == 0 {
        Seq::empty()
    } else {
        let rest = scored_matches(entries.drop_last(), query);
        match match_score(entries.last().name@, query) {
            Some(score) => rest.push(entries.last().with_score(score)),
            None => rest,
        }
    }
}

/// The view of `entries` under `query`: all of them as they stand for the
/// empty query, else the matching ones, best score first, equal scores in
/// their given order.
pub open spec fn ranked(entries: Seq<TryEntry>, query: Seq<char>) -> Seq<TryEntry> {
    if query.len() == 0 {
        entries
    } else {
        sorted_descending(scored_matches(entries, query), SortKey::Score)
    }
}

/// Whether `scored` is `given` with the score that `query` gives its name.
pub open spec fn is_scored_from(scored: TryEntry, given: TryEntry, query: Seq<char>) -> bool {
    &&& match_score(given.name@, query) == Some(scored.score)
    &&& scored == given.with_score(scored.score)
}

/// Whether `scored` stands for one of `entries`, with its score under `query`.
pub open spec fn stands_for_one_of(scored: TryEntry, entries: Seq<TryEntry>, query: Seq<char>) -> bool {
    exists|i: int| 0 <= i < entries.len() && is_scored_from(scored, #[trigger] entries[i], query)
}

/// Whether an element of `list` carries the name `name`.
pub open spec fn lists_name(list: Seq<TryEntry>, name: Seq<char>) -> bool {
    exists|k: int| 0 <= k < list.len() && (#[trigger] list[k]).name@ == name
}

/// The matches are the given entries that the query matches, nothing else.
pub proof fn lemma_scored_matches(entries: Seq<TryEntry>, query: Seq<char>)
    ensures
        scored_matches(entries, query).len() <= entries.len(),
        forall|k: int|
            0 <= k < scored_matches(entries, query).len() ==> stands_for_one_of(
                #[trigger] scored_matches(entries, query)[k],
                entries,
                query,
            ),
        forall|i: int|
            0 <= i < entries.len() && match_score((#[trigger] entries[i]).name@, query).is_some()
                ==> scored_matches(entries, query).contains(
                entries[i].with_score(match_score(entries[i].name@, query).unwrap()),
            ),
    decreases entries.len(),
{
    let all = scored_matches(entries, query);
    if entries.len() > 0 {
        let rest = entries.drop_last();
        let last = entries.last();
        let inner = scored_matches(rest, query);
        lemma_scored_matches(rest, query);
        assert forall|k: int| 0 <= k < all.len() implies stands_for_one_of(
            #[trigger] all[k],
            entries,
            query,
        ) by {
            if k < inner.len() {
                assert(all[k] == inner[k]);
                let i = choose|i: int|
                    0 <= i < rest.len() && is_scored_from(inner[k], #[trigger] rest[i], query);
                assert(is_scored_from(all[k], entries[i], query));
            } else {
                assert(is_scored_from(all[k], entries[entries.len() - 1], query));
            }
        }
        assert forall|i: int|
            0 <= i < entries.len() && match_score(
                (#[trigger] entries[i]).name@,
                query,
            ).is_some() implies all.contains(
            entries[i].with_score(match_score(entries[i].name@, query).unwrap()),
        ) by {
            let scored = entries[i].with_score(match_score(entries[i].name@, query).unwrap());
            if i < rest.len() {
                assert(rest[i] == entries[i]);
                let k = choose|k: int| 0 <= k < inner.len() && inner[k] == scored;
                assert(all[k] == scored);
            } else {
                assert(all[all.len() - 1] == scored);
            }
        }
    }
}

/// With the empty query the view is the list itself, in its order.
pub proof fn lemma_rank_empty_query(entries: Seq<TryEntry>)
    ensures
        ranked(entries, Seq::<char>::empty()) == entries,
{
}

/// The view is in descending order of score, and holds the given entries
/// that the query matches and no others: each element stands for a given
/// entry whose name the query matches, and a given entry is listed by name
/// exactly when the query matches its name.
pub proof fn lemma_rank_keeps_matches(entries: Seq<TryEntry>, query: Seq<char>)
    requires
        query.len() > 0,
    ensures
        is_descending(ranked(entries, query), SortKey::Score),
        ranked(entries, query).len() <= entries.len(),
        forall|k: int|
            0 <= k < ranked(entries, query).len() ==> {
                &&& stands_for_one_of(#[trigger] ranked(entries, query)[k], entries, query)
                &&& is_fuzzy_match(ranked(entries, query)[k].name@, query)
            },
        forall|i: int|
            0 <= i < entries.len() ==> (lists_name(
                ranked(entries, query),
                (#[trigger] entries[i]).name@,
            ) <==> match_score(entries[i].name@, query).is_some()),
{
    let matches = scored_matches(entries, query);
    let view = ranked(entries, query);
    lemma_scored_matches(entries, query);
    lemma_sorted_descending_ordered(matches, SortKey::Score);
    lemma_sorted_descending_permutes(matches, SortKey::Score);
    assert forall|k: int| 0 <= k < view.len() implies {
        &&& stands_for_one_of(#[trigger] view[k], entries, query)
        &&& is_fuzzy_match(view[k].name@, query)
    } by {
        assert(view.contains(view[k]));
        lemma_sorted_descending_contains(matches, SortKey::Score, view[k]);
        let m = choose|m: int| 0 <= m < matches.len() && matches[m] == view[k];
        assert(stands_for_one_of(matches[m], entries, query));
    }
    assert forall|i: int| 0 <= i < entries.len() implies (lists_name(
        view,
        (#[trigger] entries[i]).name@,
    ) <==> match_score(entries[i].name@, query).is_some()) by {
        if match_score(entries[i].name@, query).is_some() {
            let scored = entries[i].with_score(match_score(entries[i].name@, query).unwrap());
            assert(matches.contains(scored));
            lemma_sorted_descending_contains(matches, SortKey::Score, scored);
            let k = choose|k: int| 0 <= k < view.len() && view[k] == scored;
            assert(view[k].name@ == entries[i].name@);
        }
        if lists_name(view, entries[i].name@) {
            let k = choose|k: int| 0 <= k < view.len() && (#[trigger] view[k]).name@ == entries[i].name@;
            assert(stands_for_one_of(view[k], entries, query));
        }
    }
}

/// No entry that holds the query is left out, as long as name and query are
/// short enough to be matched: a given entry whose name is not in view does
/// not contain the query as an ordered subsequence, neither character for
/// character nor up to the case of the letters `A` to `Z`.
pub proof fn lemma_left_out_holds_no_query(entries: Seq<TryEntry>, query: Seq<char>, i: int)
    requires
        query.len() > 0,
        0 <= i < entries.len(),
        entries[i].name@.len() + query.len() <= MATCH_LIMIT,
        !lists_name(ranked(entries, query), entries[i].name@),
    ensures
        !is_subsequence(entries[i].name@, query, has_ascii_upper(query)),
        !is_subsequence(entries[i].name@, query, true),
{
    lemma_rank_keeps_matches(entries, query);
    lemma_match_is_subsequence(entries[i].name@, query);
}

/// What the query has scored it scores the same again.
proof fn lemma_scored_matches_fixed(list: Seq<TryEntry>, query: Seq<char>)
    requires
        forall|k: int|
            0 <= k < list.len() ==> match_score((#[trigger] list[k]).name@, query) == Some(
                list[k].score,
            ),
    ensures
        scored_matches(list, query) == list,
    decreases list.len(),
{
    if list.len() > 0 {
        let rest = list.drop_last();
        assert forall|k: int| 0 <= k < rest.len() implies match_score(
            (#[trigger] rest[k]).name@,
            query,
        ) == Some(rest[k].score) by {
            assert(rest[k] == list[k]);
        }
        lemma_scored_matches_fixed(rest, query);
        assert(list[list.len() - 1] == list.last());
        assert(list.last().with_score(list.last().score) == list.last());
        assert(rest.push(list.last()) =~= list);
    }
}

/// Ranking is idempotent: to rank the view again under the same query gives
/// the same entries in the same order.
pub proof fn lemma_rank_idempotent(entries: Seq<TryEntry>, query: Seq<char>)
    ensures
        ranked(ranked(entries, query), query) == ranked(entries, query),
{
    if query.len() > 0 {
        let view = ranked(entries, query);
        lemma_rank_keeps_matches(entries, query);
        assert forall|k: int| 0 <= k < view.len() implies match_score(
            (#[trigger] view[k]).name@,
            query,
        ) == Some(view[k].score) by {
            assert(stands_for_one_of(view[k], entries, query));
        }
        lemma_scored_matches_fixed(view, query);
        lemma_sorted_descending_fixed(view, SortKey::Score);
    }
}

/// Ranks `entries` against `query`.
pub fn rank(entries: &Vec<TryEntry>, query: &str) -> (out: Vec<TryEntry>)
    ensures
        out@ == ranked(entries@, query@),
{
    let mut out: Vec<TryEntry> = Vec::new();
    let keep_all = query.is_empty();
    let mut i: usize = 0;
    while i < entries.len()
        invariant
            i <= entries@.len(),
            keep_all == (query@.len() == 0),
            keep_all ==> out@ == entries@.take(i as int),
            !keep_all ==> out@ == scored_matches(entries@.take(i as int), query@),
        decreases entries@.len() - i,
    {
        assert(entries@.take(i + 1).drop_last() =~= entries@.take(i as int));
        if keep_all {
            out.push(entries[i].clone());
            assert(out@ =~= entries@.take(i + 1));
        } else {
            match fuzzy_score(entries[i].name.as_str(), query) {
                Some(score) => {
                    let mut entry = entries[i].clone();
                    entry.score = score;
                    out.push(entry);
                },
                None => {},
            }
        }
        i += 1;
    }
    assert(entries@.take(i as int) =~= entries@);
    if !keep_all {
        sort_descending(&mut out, SortKey::Score);
    }
    out
}

} // verus!
