//! Selecting the lines of a text that contain a query.
use vstd::prelude::*;

use crate::text::{
    contains_text, has_substring, lemma_split_newlines_nonempty, lines_of, lower_of, lowercase,
    split_at_newlines, split_newlines, string_texts, texts,
};

verus! {

/// The lines of `content` that contain `query` exactly, in their order.
pub open spec fn matching_lines(query: Seq<char>, content: Seq<char>) -> Seq<Seq<char>> {
    lines_of(content).filter(|l: Seq<char>| has_substring(l, query))
}

/// The lines of `content` whose lowercase form contains the lowercase form
/// of `query`, in their order and with their own letter case.
pub open spec fn matching_lines_ignoring_case(query: Seq<char>, content: Seq<char>) -> Seq<
    Seq<char>,
> {
    lines_of(content).filter(|l: Seq<char>| has_substring(lower_of(l), lower_of(query)))
}

/// The entries of `lines` whose key, the entry of `keys` at the same
/// position, contains `query`, in their order.
pub open spec fn keep_where(lines: Seq<Seq<char>>, keys: Seq<Seq<char>>, query: Seq<char>) -> Seq<
    Seq<char>,
>
    decreases lines.len(),
{
    if lines.len() == 0 || keys.len() == 0 {
        Seq::empty()
    } else {
        let front = keep_where(lines.drop_last(), keys.drop_last(), query);
        if has_substring(keys.last(), query) {
            front.push(lines.last())
        } else {
            front
        }
    }
}

/// The empty sequence occurs in every text.
pub proof fn lemma_empty_is_substring(hay: Seq<char>)
    ensures
        has_substring(hay, Seq::empty()),
{
    assert(hay.subrange(0int, 0int + Seq::<char>::empty().len()) =~= Seq::<char>::empty());
}

/// Filtering by a predicate that every entry meets keeps the whole sequence.
pub proof fn lemma_filter_keeps_all(s: Seq<Seq<char>>, pred: spec_fn(Seq<char>) -> bool)
    requires
        forall|i: int| 0 <= i < s.len() ==> #[trigger] pred(s[i]),
    ensures
        s.filter(pred) == s,
    decreases s.len(),
{
    reveal(Seq::filter);
    if s.len() > 0 {
        lemma_filter_keeps_all(s.drop_last(), pred);
        assert(s.drop_last().push(s.last()) =~= s);
    }
}

/// Selecting by the lowercase forms as keys is filtering by the lowercase form.
proof fn lemma_keep_where_lowered(lines: Seq<Seq<char>>, lowered_query: Seq<char>)
    ensures
        keep_where(lines, lines.map_values(|l: Seq<char>| lower_of(l)), lowered_query)
            == lines.filter(|l: Seq<char>| has_substring(lower_of(l), lowered_query)),
    decreases lines.len(),
{
    reveal(Seq::filter);
    if lines.len() > 0 {
        lemma_keep_where_lowered(lines.drop_last(), lowered_query);
        assert(lines.map_values(|l: Seq<char>| lower_of(l)).drop_last() =~= lines.drop_last().map_values(
            |l: Seq<char>| lower_of(l),
        ));
    }
}

/// The lines of `contents`, each a slice of it: the text between `'\n'`
/// separators, where a final separator opens no empty line.
pub fn split_lines<'a>(contents: &'a str) -> (r: Vec<&'a str>)
    ensures
        texts(r@) == lines_of(contents@),
{
    let mut pieces = split_at_newlines(contents);
    proof {
        lemma_split_newlines_nonempty(contents@);
    }
    let last: usize = pieces.len() - 1;
    if pieces[last].is_empty() {
        pieces.pop();
        proof {
            assert(texts(pieces@) =~= split_newlines(contents@).drop_last());
        }
    }
    pieces
}

/// Each line of `contents` that contains `query` as an exact, case-sensitive
/// substring, in the order of the text. An empty query matches every line.
pub fn search<'a>(query: &str, contents: &'a str) -> (r: Vec<&'a str>)
    ensures
        texts(r@) == matching_lines(query@, contents@),
        query@.len() == 0 ==> texts(r@) == lines_of(contents@),
{
    let lines = split_lines(contents);
    let ghost all = texts(lines@);
    let ghost pred = |l: Seq<char>| has_substring(l, query@);
    let mut results: Vec<&'a str> = Vec::new();
    let mut i: usize = 0;
    while i < lines.len()
        invariant
            i <= lines@.len(),
            all == texts(lines@),
            pred == (|l: Seq<char>| has_substring(l, query@)),
            texts(results@) == all.take(i as int).filter(pred),
        decreases lines@.len() - i,
    {
        let line = lines[i];
        let ghost prev = results@;
        let found = contains_text(line, query);
        if found {
            results.push(line);
        }
        proof {
            reveal(Seq::filter);
            let upto = all.take(i + 1);
            assert(upto.drop_last() =~= all.take(i as int));
            assert(upto.last() == line@);
            assert(found == pred(upto.last()));
            if found {
                assert(texts(results@) =~= texts(prev).push(line@));
            } else {
                assert(texts(results@) =~= texts(prev));
            }
            assert(texts(results@) == upto.filter(pred));
        }
        i = i + 1;
    }
    proof {
        assert(all.take(i as int) =~= all);
        if query@.len() == 0 {
            assert(query@ =~= Seq::<char>::empty());
            assert forall|k: int| 0 <= k < all.len() implies #[trigger] pred(all[k]) by {
                lemma_empty_is_substring(all[k]);
            }
            lemma_filter_keeps_all(all, pred);
        }
    }
    results
}

/// The entries of `lines` whose key (the entry of `keys` at the same
/// position) contains `query`, in their order.
pub fn select_matching<'a>(lines: &[&'a str], keys: &[String], query: &str) -> (r: Vec<&'a str>)
    requires
        lines@.len() == keys@.len(),
    ensures
        texts(r@) == keep_where(texts(lines@), string_texts(keys@), query@),
{
    let ghost all = texts(lines@);
    let ghost all_keys = string_texts(keys@);
    let mut results: Vec<&'a str> = Vec::new();
    let mut i: usize = 0;
    while i < lines.len()
        invariant
            i <= lines@.len(),
            lines@.len() == keys@.len(),
            all == texts(lines@),
            all_keys == string_texts(keys@),
            texts(results@) == keep_where(all.take(i as int), all_keys.take(i as int), query@),
        decreases lines@.len() - i,
    {
        if contains_text(keys[i].as_str(), query) {
            results.push(lines[i]);
        }
        proof {
            assert(all.take(i + 1).drop_last() =~= all.take(i as int));
            assert(all_keys.take(i + 1).drop_last() =~= all_keys.take(i as int));
            assert(texts(results@) =~= keep_where(
                all.take(i + 1),
                all_keys.take(i + 1),
                query@,
            ));
        }
        i = i + 1;
    }
    proof {
        assert(all.take(i as int) =~= all);
        assert(all_keys.take(i as int) =~= all_keys);
    }
    results
}

/// Each line of `contents` whose lowercase form contains the lowercase form
/// of `query`, in the order of the text and with its original letter case.
/// An empty query matches every line.
pub fn search_case_insensitive<'a>(query: &str, contents: &'a str) -> (r: Vec<&'a str>)
    ensures
        texts(r@) == matching_lines_ignoring_case(query@, contents@),
        query@.len() == 0 ==> texts(r@) == lines_of(contents@),
{
    let lowered_query = lowercase(query);
    let lines = split_lines(contents);
    let ghost all = texts(lines@);
    let mut keys: Vec<String> = Vec::new();
    let mut i: usize = 0;
    while i < lines.len()
        invariant
            i <= lines@.len(),
            keys@.len() == i,
            all == texts(lines@),
            string_texts(keys@) == all.take(i as int).map_values(|l: Seq<char>| lower_of(l)),
        decreases lines@.len() - i,
    {
        let key = lowercase(lines[i]);
        let ghost before = keys@;
        keys.push(key);
        proof {
            assert(string_texts(keys@) =~= string_texts(before).push(key@));
            assert(all.take(i + 1).map_values(|l: Seq<char>| lower_of(l)) =~= all.take(
                i as int,
            ).map_values(|l: Seq<char>| lower_of(l)).push(lower_of(all[i as int])));
        }
        i = i + 1;
    }
    let results = select_matching(lines.as_slice(), keys.as_slice(), lowered_query.as_str());
    proof {
        assert(all.take(i as int) =~= all);
        lemma_keep_where_lowered(all, lowered_query@);
        let pred = |l: Seq<char>| has_substring(lower_of(l), lower_of(query@));
        assert(texts(results@) == all.filter(pred));
        if query@.len() == 0 {
            assert(lowered_query@ =~= Seq::<char>::empty());
            assert forall|k: int| 0 <= k < all.len() implies #[trigger] pred(all[k]) by {
                lemma_empty_is_substring(lower_of(all[k]));
            }
            lemma_filter_keeps_all(all, pred);
        }
    }
    results
}

} // verus!
