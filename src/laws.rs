//! Properties that hold of the search results for every query and content.
use vstd::prelude::*;

use crate::search::{lemma_empty_is_substring, matching_lines, matching_lines_ignoring_case};
use crate::text::{has_substring, lines_of, lower_of};

verus! {

/// `pos` says where each entry of `sub` stands in `full`: at strictly
/// increasing positions, each holding that entry.
pub open spec fn positions_in(pos: Seq<int>, sub: Seq<Seq<char>>, full: Seq<Seq<char>>) -> bool {
    &&& pos.len() == sub.len()
    &&& forall|k: int| 0 <= k < pos.len() ==> 0 <= #[trigger] pos[k] < full.len() && full[pos[k]] == sub[k]
    &&& forall|j: int, k: int| 0 <= j < k < pos.len() ==> #[trigger] pos[j] < #[trigger] pos[k]
}

/// `sub` is made of entries of `full`, taken in their order in `full`.
pub open spec fn is_ordered_sublist(sub: Seq<Seq<char>>, full: Seq<Seq<char>>) -> bool {
    exists|pos: Seq<int>| #[trigger] positions_in(pos, sub, full)
}

/// The positions in `s` of the entries that a filter keeps.
proof fn lemma_filter_positions(s: Seq<Seq<char>>, pred: spec_fn(Seq<char>) -> bool) -> (pos: Seq<
    int,
>)
    ensures
        positions_in(pos, s.filter(pred), s),
    decreases s.len(),
{
    reveal(Seq::filter);
    if s.len() == 0 {
        Seq::empty()
    } else {
        let front = lemma_filter_positions(s.drop_last(), pred);
        if pred(s.last()) {
            let pos = front.push(s.len() - 1);
            assert forall|k: int| 0 <= k < pos.len() implies 0 <= #[trigger] pos[k] < s.len()
                && s[pos[k]] == s.filter(pred)[k] by {
                if k < front.len() {
                    assert(s[front[k]] == s.drop_last()[front[k]]);
                }
            }
            pos
        } else {
            assert forall|k: int| 0 <= k < front.len() implies 0 <= #[trigger] front[k] < s.len()
                && s[front[k]] == s.filter(pred)[k] by {
                assert(s[front[k]] == s.drop_last()[front[k]]);
            }
            front
        }
    }
}

/// Every line that the case-sensitive search returns contains the query as
/// an exact substring, and the lines returned are lines of the content in
/// their original order.
pub proof fn lemma_matches_contain_query_in_order(query: Seq<char>, content: Seq<char>)
    ensures
        forall|k: int|
            0 <= k < matching_lines(query, content).len() ==> has_substring(
                #[trigger] matching_lines(query, content)[k],
                query,
            ),
        is_ordered_sublist(matching_lines(query, content), lines_of(content)),
{
    let pred = |l: Seq<char>| has_substring(l, query);
    let found = lines_of(content).filter(pred);
    assert forall|k: int| 0 <= k < found.len() implies has_substring(#[trigger] found[k], query) by {
        lines_of(content).lemma_filter_pred(pred, k);
    }
    let pos = lemma_filter_positions(lines_of(content), pred);
    assert(positions_in(pos, found, lines_of(content)));
}

/// The case-insensitive search returns exactly the lines of the content
/// whose lowercase form contains the lowercase form of the query: each line
/// it returns has that property, each line of the content that has it is
/// returned, and the lines come unchanged, in their original order.
pub proof fn lemma_case_insensitive_matches_exactly(query: Seq<char>, content: Seq<char>)
    ensures
        forall|k: int|
            0 <= k < matching_lines_ignoring_case(query, content).len() ==> has_substring(
                lower_of(#[trigger] matching_lines_ignoring_case(query, content)[k]),
                lower_of(query),
            ),
        forall|k: int|
            0 <= k < lines_of(content).len() && has_substring(
                lower_of(#[trigger] lines_of(content)[k]),
                lower_of(query),
            ) ==> matching_lines_ignoring_case(query, content).contains(lines_of(content)[k]),
        is_ordered_sublist(matching_lines_ignoring_case(query, content), lines_of(content)),
{
    let lines = lines_of(content);
    let pred = |l: Seq<char>| has_substring(lower_of(l), lower_of(query));
    let found = lines.filter(pred);
    assert forall|k: int| 0 <= k < found.len() implies has_substring(
        lower_of(#[trigger] found[k]),
        lower_of(query),
    ) by {
        lines.lemma_filter_pred(pred, k);
    }
    assert forall|k: int| 0 <= k < lines.len() && has_substring(
        lower_of(#[trigger] lines[k]),
        lower_of(query),
    ) implies found.contains(lines[k]) by {
        lines.lemma_filter_contains(pred, k);
    }
    let pos = lemma_filter_positions(lines, pred);
    assert(positions_in(pos, found, lines));
}

/// The empty query matches every line of every content under case-sensitive
/// search. (For the case-insensitive search the same holds by the contract of
/// `search_case_insensitive`.)
pub proof fn lemma_empty_query_matches_every_line(content: Seq<char>)
    ensures
        matching_lines(Seq::empty(), content) == lines_of(content),
{
    let lines = lines_of(content);
    let pred = |l: Seq<char>| has_substring(l, Seq::empty());
    assert forall|k: int| 0 <= k < lines.len() implies #[trigger] pred(lines[k]) by {
        lemma_empty_is_substring(lines[k]);
    }
    crate::search::lemma_filter_keeps_all(lines, pred);
}

} // verus!
