//! Selecting the lines of a text that match a pattern.
use vstd::prelude::*;

use crate::config::Config;
use crate::lines::{lines_of, split_lines, views};
use crate::pattern::{
    compile, contains, is_literal, is_match, lower_of, lowercase, regex_compiles, regex_is_match,
    Matcher,
};

verus! {

/// Why a search could not be made.
#[derive(Debug)]
pub enum MatchError {
    /// The pattern is not a regular expression that can be compiled.
    InvalidPattern(regex::Error),
}

/// Whether line `l` is selected by `pattern`: as a regex match on the text
/// as written, or, without case sensitivity, on both lowercased.
pub open spec fn line_selected(pattern: Seq<char>, l: Seq<char>, case_sensitive: bool) -> bool {
    if case_sensitive {
        regex_is_match(pattern, l)
    } else {
        regex_is_match(lower_of(pattern), lower_of(l))
    }
}

/// The pattern that is compiled for a search.
pub open spec fn effective_pattern(pattern: Seq<char>, case_sensitive: bool) -> Seq<char> {
    if case_sensitive {
        pattern
    } else {
        lower_of(pattern)
    }
}

/// Whether a search with this pattern goes ahead.
pub open spec fn pattern_accepted(pattern: Seq<char>, case_sensitive: bool) -> bool {
    regex_compiles(effective_pattern(pattern, case_sensitive))
}

/// The lines of `contents` that `pattern` selects, in their order, as written.
pub open spec fn selected_lines(
    pattern: Seq<char>,
    contents: Seq<char>,
    case_sensitive: bool,
) -> Seq<Seq<char>> {
    lines_of(contents).filter(|l: Seq<char>| line_selected(pattern, l, case_sensitive))
}

/// What a search returns: it fails exactly when the pattern does not
/// compile, and otherwise gives the selected lines.
pub open spec fn is_search_outcome(
    pattern: Seq<char>,
    contents: Seq<char>,
    case_sensitive: bool,
    r: Result<Vec<String>, MatchError>,
) -> bool {
    &&& r is Ok <==> pattern_accepted(pattern, case_sensitive)
    &&& r is Ok ==> views(r->Ok_0@) == selected_lines(pattern, contents, case_sensitive)
}

/// The rule for a pattern without meta characters: a line is selected
/// iff it contains the pattern (lowercased on both sides without case sensitivity).
pub open spec fn literal_rule_holds(
    pattern: Seq<char>,
    contents: Seq<char>,
    case_sensitive: bool,
    r: Result<Vec<String>, MatchError>,
) -> bool {
    is_literal(effective_pattern(pattern, case_sensitive)) && r is Ok ==> views(r->Ok_0@)
        == lines_of(contents).filter(
        |l: Seq<char>| contains(folded(l, !case_sensitive), effective_pattern(pattern, case_sensitive)),
    )
}

/// A line as it is compared: lowercased when `fold` is set.
pub open spec fn folded(l: Seq<char>, fold: bool) -> Seq<char> {
    if fold {
        lower_of(l)
    } else {
        l
    }
}

proof fn lemma_filter_step(
    s: Seq<Seq<char>>,
    i: int,
    pred: spec_fn(Seq<char>) -> bool,
)
    requires
        0 <= i < s.len(),
    ensures
        s.take(i + 1).filter(pred) == if pred(s[i]) {
            s.take(i).filter(pred).push(s[i])
        } else {
            s.take(i).filter(pred)
        },
{
    reveal(Seq::filter);
    assert(s.take(i + 1).drop_last() =~= s.take(i));
}

/// Keeps the lines that `m` matches, each tested as written or lowercased.
fn select(m: &Matcher, lines: Vec<String>, fold: bool) -> (r: Vec<String>)
    ensures
        views(r@) == views(lines@).filter(
            |l: Seq<char>| regex_is_match(m.source(), folded(l, fold)),
        ),
        is_literal(m.source()) ==> views(r@) == views(lines@).filter(
            |l: Seq<char>| contains(folded(l, fold), m.source()),
        ),
{
    let ghost pred = |l: Seq<char>| regex_is_match(m.source(), folded(l, fold));
    let ghost lit = |l: Seq<char>| contains(folded(l, fold), m.source());
    let ghost all = views(lines@);
    let mut out: Vec<String> = Vec::new();
    let mut i: usize = 0;
    while i < lines.len()
        invariant
            i <= lines.len(),
            all == views(lines@),
            forall|l: Seq<char>| #[trigger] pred(l) == regex_is_match(m.source(), folded(l, fold)),
            forall|l: Seq<char>| #[trigger] lit(l) == contains(folded(l, fold), m.source()),
            views(out@) == all.take(i as int).filter(pred),
            is_literal(m.source()) ==> views(out@) == all.take(i as int).filter(lit),
        decreases lines.len() - i,
    {
        let line = &lines[i];
        let hit = if fold {
            let lowered = lowercase(line.as_str());
            is_match(m, lowered.as_str())
        } else {
            is_match(m, line.as_str())
        };
        proof {
            lemma_filter_step(all, i as int, pred);
            lemma_filter_step(all, i as int, lit);
            assert(all[i as int] == line@);
        }
        if hit {
            let ghost before = out@;
            out.push(line.clone());
            proof {
                assert(views(out@) =~= views(before).push(line@));
            }
        }
        i = i + 1;
    }
    proof {
        assert(all.take(lines.len() as int) =~= all);
    }
    out
}

proof fn lemma_filter_keeps_all(s: Seq<Seq<char>>, pred: spec_fn(Seq<char>) -> bool)
    requires
        forall|i: int| 0 <= i < s.len() ==> #[trigger] pred(s[i]),
    ensures
        s.filter(pred) == s,
    decreases s.len(),
{
    reveal(Seq::filter);
    if s.len() > 0 {
        lemma_filter_keeps_all(s.drop_last(), pred);
        assert(s.drop_last().push(s.last()) =~= s);
    }
}

proof fn lemma_contains_empty(l: Seq<char>)
    ensures
        contains(l, Seq::empty()),
{
    let e = Seq::<char>::empty();
    assert(l.subrange(0, 0 + e.len() as int) =~= e);
}

/// Splits `contents`, then keeps the lines that `m` matches.
fn select_lines(m: &Matcher, contents: &str, fold: bool) -> (r: Vec<String>)
    ensures
        views(r@) == lines_of(contents@).filter(
            |l: Seq<char>| regex_is_match(m.source(), folded(l, fold)),
        ),
        is_literal(m.source()) ==> views(r@) == lines_of(contents@).filter(
            |l: Seq<char>| contains(folded(l, fold), m.source()),
        ),
        m.source().len() == 0 ==> views(r@) == lines_of(contents@),
{
    let lines = split_lines(contents);
    let r = select(m, lines, fold);
    proof {
        if m.source().len() == 0 {
            assert forall|i: int| 0 <= i < lines_of(contents@).len() implies #[trigger] contains(
                folded(lines_of(contents@)[i], fold),
                m.source(),
            ) by {
                assert(m.source() =~= Seq::<char>::empty());
                lemma_contains_empty(folded(lines_of(contents@)[i], fold));
            }
            lemma_filter_keeps_all(
                lines_of(contents@),
                |l: Seq<char>| contains(folded(l, fold), m.source()),
            );
        }
    }
    r
}

/// The lines of `contents` that the regex `search` matches, in order.
pub fn grep(search: &str, contents: &str) -> (r: Result<Vec<String>, MatchError>)
    ensures
        is_search_outcome(search@, contents@, true, r),
        literal_rule_holds(search@, contents@, true, r),
        search@.len() == 0 ==> r is Ok && views(r->Ok_0@) == lines_of(contents@),
{
    let m = match compile(search) {
        Ok(m) => m,
        Err(e) => {
            return Err(MatchError::InvalidPattern(e));
        },
    };
    let out = select_lines(&m, contents, false);
    proof {
        assert((|l: Seq<char>| line_selected(search@, l, true)) =~= (|l: Seq<char>|
            regex_is_match(m.source(), folded(l, false))));
        assert((|l: Seq<char>| contains(folded(l, !true), effective_pattern(search@, true)))
            =~= (|l: Seq<char>| contains(folded(l, false), m.source())));
    }
    Ok(out)
}

/// The lines of `contents` that the lowercased regex `search` matches once
/// they are lowercased too; the lines are returned as written.
pub fn grep_case_insensitive(search: &str, contents: &str) -> (r: Result<Vec<String>, MatchError>)
    ensures
        is_search_outcome(search@, contents@, false, r),
        literal_rule_holds(search@, contents@, false, r),
        search@.len() == 0 ==> r is Ok && views(r->Ok_0@) == lines_of(contents@),
{
    let lowered = lowercase(search);
    let m = match compile(lowered.as_str()) {
        Ok(m) => m,
        Err(e) => {
            return Err(MatchError::InvalidPattern(e));
        },
    };
    let out = select_lines(&m, contents, true);
    proof {
        assert((|l: Seq<char>| line_selected(search@, l, false)) =~= (|l: Seq<char>|
            regex_is_match(m.source(), folded(l, true))));
        assert((|l: Seq<char>| contains(folded(l, !false), effective_pattern(search@, false)))
            =~= (|l: Seq<char>| contains(folded(l, true), m.source())));
    }
    Ok(out)
}

/// The lines of `contents` that the configured pattern selects, with the
/// configured case sensitivity.
pub fn find_matches(config: &Config, contents: &str) -> (r: Result<Vec<String>, MatchError>)
    ensures
        is_search_outcome(config.search@, contents@, config.case_sensitive, r),
        literal_rule_holds(config.search@, contents@, config.case_sensitive, r),
        config.search@.len() == 0 ==> r is Ok && views(r->Ok_0@) == lines_of(contents@),
{
    if config.case_sensitive {
        grep(config.search.as_str(), contents)
    } else {
        grep_case_insensitive(config.search.as_str(), contents)
    }
}

/// `a` is `b` with some elements left out: each element of `a` stands in
/// `b`, and in the same order.
pub open spec fn is_ordered_sublist(a: Seq<Seq<char>>, b: Seq<Seq<char>>) -> bool {
    exists|idx: Seq<int>|
        #![trigger idx.len()]
        idx.len() == a.len() && (forall|i: int|
            0 <= i < idx.len() ==> 0 <= #[trigger] idx[i] < b.len() && a[i] == b[idx[i]]) && (
        forall|i: int, j: int| 0 <= i < j < idx.len() ==> #[trigger] idx[i] < #[trigger] idx[j])
    }

proof fn lemma_filter_is_ordered_sublist(s: Seq<Seq<char>>, pred: spec_fn(Seq<char>) -> bool)
    ensures
        is_ordered_sublist(s.filter(pred), s),
        forall|i: int| 0 <= i < s.filter(pred).len() ==> pred(#[trigger] s.filter(pred)[i]),
    decreases s.len(),
{
    reveal(Seq::filter);
    if s.len() == 0 {
        let idx = Seq::<int>::empty();
        assert(idx.len() == s.filter(pred).len());
    } else {
        let rest = s.drop_last();
        lemma_filter_is_ordered_sublist(rest, pred);
        let f = rest.filter(pred);
        let idx = choose|idx: Seq<int>|
            #![trigger idx.len()]
            idx.len() == f.len() && (forall|i: int|
                0 <= i < idx.len() ==> 0 <= #[trigger] idx[i] < rest.len() && f[i] == rest[idx[i]])
                && (forall|i: int, j: int|
                0 <= i < j < idx.len() ==> #[trigger] idx[i] < #[trigger] idx[j]);
        if pred(s.last()) {
            let idx2 = idx.push(s.len() - 1);
            assert(s.filter(pred) == f.push(s.last()));
            assert(idx2.len() == s.filter(pred).len());
            assert forall|i: int| 0 <= i < idx2.len() implies 0 <= #[trigger] idx2[i] < s.len()
                && s.filter(pred)[i] == s[idx2[i]] by {
                if i < idx.len() {
                    assert(idx2[i] == idx[i]);
                }
            }
            assert forall|i: int, j: int| 0 <= i < j < idx2.len() implies #[trigger] idx2[i]
                < #[trigger] idx2[j] by {
                if j < idx.len() {
                    assert(idx2[i] == idx[i] && idx2[j] == idx[j]);
                } else {
                    assert(idx2[i] == idx[i]);
                }
            }
        } else {
            assert(s.filter(pred) == f);
            assert(idx.len() == s.filter(pred).len());
            assert forall|i: int| 0 <= i < idx.len() implies 0 <= #[trigger] idx[i] < s.len()
                && s.filter(pred)[i] == s[idx[i]] by {
                assert(rest[idx[i]] == s[idx[i]]);
            }
        }
    }
}

/// With case sensitivity, the result keeps lines of the text in their
/// order, and each of them is matched by the pattern as written.
pub proof fn lemma_sensitive_result_is_ordered_sublist(pattern: Seq<char>, contents: Seq<char>)
    ensures
        is_ordered_sublist(selected_lines(pattern, contents, true), lines_of(contents)),
        forall|i: int|
            0 <= i < selected_lines(pattern, contents, true).len() ==> regex_is_match(
                pattern,
                #[trigger] selected_lines(pattern, contents, true)[i],
            ),
{
    lemma_filter_is_ordered_sublist(
        lines_of(contents),
        |l: Seq<char>| line_selected(pattern, l, true),
    );
}

/// A successful case-sensitive search gives lines of the text in their
/// order, each matched by the pattern; for a pattern without meta
/// characters, each of them contains the pattern as written.
pub proof fn lemma_sensitive_outcome(
    pattern: Seq<char>,
    contents: Seq<char>,
    r: Result<Vec<String>, MatchError>,
)
    requires
        is_search_outcome(pattern, contents, true, r),
        literal_rule_holds(pattern, contents, true, r),
        r is Ok,
    ensures
        is_ordered_sublist(views(r->Ok_0@), lines_of(contents)),
        forall|i: int|
            0 <= i < views(r->Ok_0@).len() ==> regex_is_match(
                pattern,
                #[trigger] views(r->Ok_0@)[i],
            ),
        is_literal(pattern) ==> forall|i: int|
            0 <= i < views(r->Ok_0@).len() ==> contains(#[trigger] views(r->Ok_0@)[i], pattern),
{
    lemma_sensitive_result_is_ordered_sublist(pattern, contents);
    let lit = |l: Seq<char>| contains(folded(l, !true), effective_pattern(pattern, true));
    lemma_filter_is_ordered_sublist(lines_of(contents), lit);
}

/// A successful case-insensitive search gives lines of the text, as
/// written and in their order; when the lowercased pattern has no meta
/// characters, each of them, lowercased, contains the lowercased pattern.
pub proof fn lemma_insensitive_outcome(
    pattern: Seq<char>,
    contents: Seq<char>,
    r: Result<Vec<String>, MatchError>,
)
    requires
        is_search_outcome(pattern, contents, false, r),
        literal_rule_holds(pattern, contents, false, r),
        r is Ok,
    ensures
        is_ordered_sublist(views(r->Ok_0@), lines_of(contents)),
        forall|i: int|
            0 <= i < views(r->Ok_0@).len() ==> regex_is_match(
                lower_of(pattern),
                lower_of(#[trigger] views(r->Ok_0@)[i]),
            ),
        is_literal(lower_of(pattern)) ==> forall|i: int|
            0 <= i < views(r->Ok_0@).len() ==> contains(
                lower_of(#[trigger] views(r->Ok_0@)[i]),
                lower_of(pattern),
            ),
{
    lemma_filter_is_ordered_sublist(
        lines_of(contents),
        |l: Seq<char>| line_selected(pattern, l, false),
    );
    let lit = |l: Seq<char>| contains(folded(l, !false), effective_pattern(pattern, false));
    lemma_filter_is_ordered_sublist(lines_of(contents), lit);
}

/// Without case sensitivity, the search is the case-sensitive one with the
/// pattern and each line lowercased, returning the lines as written.
pub proof fn lemma_insensitive_is_sensitive_on_lowered(pattern: Seq<char>, contents: Seq<char>)
    ensures
        pattern_accepted(pattern, false) == pattern_accepted(lower_of(pattern), true),
        selected_lines(pattern, contents, false) == lines_of(contents).filter(
            |l: Seq<char>| line_selected(lower_of(pattern), lower_of(l), true),
        ),
{
    assert((|l: Seq<char>| line_selected(pattern, l, false)) =~= (|l: Seq<char>|
        line_selected(lower_of(pattern), lower_of(l), true)));
}

/// Two searches with the same pattern, text and case sensitivity agree:
/// both fail, or both give the same lines in the same order.
pub proof fn lemma_search_repeatable(
    pattern: Seq<char>,
    contents: Seq<char>,
    case_sensitive: bool,
    first: Result<Vec<String>, MatchError>,
    second: Result<Vec<String>, MatchError>,
)
    requires
        is_search_outcome(pattern, contents, case_sensitive, first),
        is_search_outcome(pattern, contents, case_sensitive, second),
    ensures
        first is Ok <==> second is Ok,
        first is Ok ==> views(first->Ok_0@) == views(second->Ok_0@),
{
}

} // verus!
