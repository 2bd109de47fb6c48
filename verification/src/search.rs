//! The query composer and the search runners: a structured request
//! becomes one composite engine query; the engine's hits come back as
//! positions into the verified document store; and in relevance mode the
//! scorer recomputes every hit's score before the final ordering.

use vstd::prelude::*;
use vstd::assert_multisets_equal;
use crate::docs::{document_to_name_result, document_to_title_result};
use crate::engine;
use crate::engine::EngineQuery;
use crate::indexer::{
    lemma_ids_sound, spec_name_keys, spec_title_keys, NameIndex, TitleIndex,
};
use crate::scoring::compute_title_relevance_score;
use crate::text::{trim, trim_of};
use crate::types::{
    ApiError, NameSearchParams, NameSearchResponse, NameSearchResult, SortMode,
    TitleSearchParams, TitleSearchResponse, TitleSearchResult,
};

verus! {

/// The result count a request is allowed: its stated limit, clamped into
/// the serving band; ten when unstated.
pub open spec fn spec_clamped_limit(l: Option<usize>) -> usize {
    let raw: usize = match l {
        None => 10,
        Some(v) => v,
    };
    if raw < 1 {
        1
    } else if raw > 50 {
        50
    } else {
        raw
    }
}

fn clamp_limit(l: Option<usize>) -> (r: usize)
    ensures
        r == spec_clamped_limit(l),
        1 <= r <= 50,
{
    let raw: usize = match l {
        None => 10,
        Some(v) => v,
    };
    if raw < 1 {
        1
    } else if raw > 50 {
        50
    } else {
        raw
    }
}

/// The non-empty values of a multi-valued filter, in order.
pub open spec fn spec_nonempty_of(gs: Seq<Seq<char>>) -> Seq<Seq<char>>
    decreases gs.len(),
{
    if gs.len() == 0 {
        Seq::<Seq<char>>::empty()
    } else {
        spec_nonempty_of(gs.drop_last()) + if gs.last().len() > 0 {
            seq![gs.last()]
        } else {
            Seq::<Seq<char>>::empty()
        }
    }
}

#[verifier::loop_isolation(false)]
fn keep_nonempty(gs: &Vec<String>) -> (r: Vec<String>)
    ensures
        r.deep_view() == spec_nonempty_of(gs.deep_view()),
{
    let mut out: Vec<String> = Vec::new();
    let mut i: usize = 0;
    proof {
        assert(gs.deep_view().take(0) =~= Seq::<Seq<char>>::empty());
        assert(out.deep_view() =~= spec_nonempty_of(gs.deep_view().take(0)));
    }
    while i < gs.len()
        invariant
            0 <= i <= gs@.len(),
            out.deep_view() == spec_nonempty_of(gs.deep_view().take(i as int)),
        decreases gs@.len() - i,
    {
        proof {
            assert(gs.deep_view().take(i + 1).drop_last() =~= gs.deep_view().take(i as int));
            assert(gs.deep_view().take(i + 1).last() == gs.deep_view()[i as int]);
        }
        let ghost pre = out.deep_view();
        let s: &String = &gs[i];
        if s.as_str().unicode_len() > 0 {
            out.push(s.clone());
            proof {
                assert(out.deep_view() =~= pre.push(s@));
            }
        } else {
            proof {
                assert(pre + Seq::<Seq<char>>::empty() =~= pre);
            }
        }
        i = i + 1;
    }
    proof {
        assert(gs.deep_view().take(gs@.len() as int) =~= gs.deep_view());
    }
    out
}

/// A title request reduced to the clauses the engine will be handed.
pub struct TitleQueryPlan {
    pub text: Option<String>,
    pub title_types: Vec<String>,
    pub start_year_min: i64,
    pub start_year_max: Option<i64>,
    pub use_start_range: bool,
    pub end_year_min: Option<i64>,
    pub end_year_max: Option<i64>,
    pub min_rating_tenths: Option<i64>,
    pub max_rating_tenths: Option<i64>,
    pub min_votes: Option<i64>,
    pub max_votes: Option<i64>,
    pub genres: Vec<String>,
    pub limit: usize,
    pub sort: SortMode,
}

/// The default category pair an unfiltered request narrows to.
pub open spec fn spec_default_title_types() -> Seq<Seq<char>> {
    seq!["movie"@, "tvSeries"@]
}

/// Reduces a title request to its plan.  The free text is kept trimmed
/// when anything remains of it; a stated category stands alone while an
/// unstated one becomes the default pair, to be matched as alternatives;
/// the start-period floor defaults to the modern-era constant; the other
/// ranges pass through as stated; and empty values of the tag filter are
/// dropped.
pub fn plan_title_query(params: &TitleSearchParams) -> (r: TitleQueryPlan)
    ensures
        r.limit == spec_clamped_limit(params.limit),
        1 <= r.limit <= 50,
        r.sort == (match params.sort {
            Some(s) => s,
            None => SortMode::Relevance,
        }),
        (match params.query {
            None => r.text is None,
            Some(ref q) => if trim_of(q@).len() == 0 {
                r.text is None
            } else {
                r.text matches Some(t) && t@ == trim_of(q@)
            },
        }),
        (match params.title_type {
            Some(ref t) => if t@.len() > 0 {
                r.title_types.deep_view() == seq![t@]
            } else {
                r.title_types.deep_view() == spec_default_title_types()
            },
            None => r.title_types.deep_view() == spec_default_title_types(),
        }),
        r.start_year_min == (match params.start_year_min {
            Some(v) => v,
            None => 1980i64,
        }),
        r.start_year_max == params.start_year_max,
        r.use_start_range == (r.start_year_min != 0 || params.start_year_max is Some),
        r.end_year_min == params.end_year_min,
        r.end_year_max == params.end_year_max,
        r.min_rating_tenths == params.min_rating_tenths,
        r.max_rating_tenths == params.max_rating_tenths,
        r.min_votes == params.min_votes,
        r.max_votes == params.max_votes,
        r.genres.deep_view() == spec_nonempty_of(params.genres.deep_view()),
{
    let limit = clamp_limit(params.limit);
    let sort = match params.sort {
        Some(s) => s,
        None => SortMode::Relevance,
    };
    let text: Option<String> = match &params.query {
        None => None,
        Some(q) => {
            let t = trim(q.as_str());
            if t.unicode_len() == 0 {
                None
            } else {
                Some(String::from_str(t))
            }
        },
    };
    let title_types: Vec<String> = match &params.title_type {
        Some(t) => {
            if t.as_str().unicode_len() > 0 {
                let mut v: Vec<String> = Vec::new();
                v.push(t.clone());
                proof {
                    assert(v.deep_view() =~= seq![t@]);
                }
                v
            } else {
                let mut v: Vec<String> = Vec::new();
                v.push(String::from_str("movie"));
                v.push(String::from_str("tvSeries"));
                proof {
                    assert(v.deep_view() =~= spec_default_title_types());
                }
                v
            }
        },
        None => {
            let mut v: Vec<String> = Vec::new();
            v.push(String::from_str("movie"));
            v.push(String::from_str("tvSeries"));
            proof {
                assert(v.deep_view() =~= spec_default_title_types());
            }
            v
        },
    };
    let start_year_min: i64 = match params.start_year_min {
        Some(v) => v,
        None => 1980,
    };
    let use_start_range = start_year_min != 0 || params.start_year_max.is_some();
    TitleQueryPlan {
        text,
        title_types,
        start_year_min,
        start_year_max: params.start_year_max,
        use_start_range,
        end_year_min: params.end_year_min,
        end_year_max: params.end_year_max,
        min_rating_tenths: params.min_rating_tenths,
        max_rating_tenths: params.max_rating_tenths,
        min_votes: params.min_votes,
        max_votes: params.max_votes,
        genres: keep_nonempty(&params.genres),
        limit,
        sort,
    }
}

/// Builds the composite engine query of a title plan: the parsed free
/// text, the category clause — one term, or an or-group over the
/// alternatives — and one required sub-clause per stated range and tag.
/// With no clauses at all, everything matches.
fn compose_title_query(ix: &TitleIndex, plan: &TitleQueryPlan) -> Result<EngineQuery, String> {
    let mut clauses: Vec<EngineQuery> = Vec::new();
    match &plan.text {
        Some(t) => {
            match engine::parse_user_query(&ix.query_parser, t.as_str()) {
                Ok(q) => {
                    clauses.push(q);
                },
                Err(e) => {
                    return Err(e);
                },
            }
        },
        None => {},
    }
    if plan.title_types.len() == 1 {
        let t: &String = &plan.title_types[0];
        clauses.push(engine::term_query(ix.fields.title_type, t.as_str()));
    } else if plan.title_types.len() > 1 {
        let mut shoulds: Vec<EngineQuery> = Vec::new();
        let mut i: usize = 0;
        while i < plan.title_types.len()
            decreases plan.title_types@.len() - i,
        {
            let t: &String = &plan.title_types[i];
            shoulds.push(engine::term_query(ix.fields.title_type, t.as_str()));
            i = i + 1;
        }
        clauses.push(engine::any_should(shoulds));
    }
    if plan.use_start_range {
        clauses.push(
            engine::range_query_i64(
                ix.fields.start_year,
                Some(plan.start_year_min),
                plan.start_year_max,
            ),
        );
    }
    if plan.end_year_min.is_some() || plan.end_year_max.is_some() {
        clauses.push(
            engine::range_query_i64(ix.fields.end_year, plan.end_year_min, plan.end_year_max),
        );
    }
    if plan.min_rating_tenths.is_some() || plan.max_rating_tenths.is_some() {
        clauses.push(
            engine::range_query_i64(
                ix.fields.average_rating,
                plan.min_rating_tenths,
                plan.max_rating_tenths,
            ),
        );
    }
    if plan.min_votes.is_some() || plan.max_votes.is_some() {
        clauses.push(engine::range_query_i64(ix.fields.num_votes, plan.min_votes, plan.max_votes));
    }
    let mut g: usize = 0;
    while g < plan.genres.len()
        decreases plan.genres@.len() - g,
    {
        let genre: &String = &plan.genres[g];
        clauses.push(engine::term_query(ix.fields.genres, genre.as_str()));
        g = g + 1;
    }
    if clauses.len() == 0 {
        Ok(engine::match_all())
    } else if clauses.len() == 1 {
        match clauses.pop() {
            Some(q) => Ok(q),
            None => Ok(engine::match_all()),
        }
    } else {
        Ok(engine::all_must(clauses))
    }
}

/// The ranking key of a served title result.
pub open spec fn spec_score_key(r: TitleSearchResult) -> u64 {
    match r.score_micro {
        Some(s) => s,
        None => 0,
    }
}

/// Non-increasing ranking keys.
pub open spec fn spec_sorted_desc(rs: Seq<TitleSearchResult>) -> bool {
    forall|i: int, j: int|
        0 <= i < j < rs.len() ==> spec_score_key(#[trigger] rs[i]) >= spec_score_key(
            #[trigger] rs[j],
        )
}

/// Sorts the results best score first; the result holds exactly the
/// input's elements.
#[verifier::loop_isolation(false)]
pub fn sort_by_score_desc(results: Vec<TitleSearchResult>) -> (r: Vec<TitleSearchResult>)
    ensures
        spec_sorted_desc(r@),
        r@.to_multiset() == results@.to_multiset(),
        r@.len() == results@.len(),
        forall|i: int| 0 <= i < r@.len() ==> results@.contains(#[trigger] r@[i]),
{
    broadcast use vstd::seq_lib::group_to_multiset_ensures;

    let mut rest = results;
    let mut out: Vec<TitleSearchResult> = Vec::new();
    while rest.len() > 0
        invariant
            spec_sorted_desc(out@),
            out@.to_multiset().add(rest@.to_multiset()) =~= results@.to_multiset(),
            out@.len() + rest@.len() == results@.len(),
            forall|x: int, y: int|
                0 <= x < out@.len() && 0 <= y < rest@.len() ==> spec_score_key(#[trigger] out@[x])
                    >= spec_score_key(#[trigger] rest@[y]),
        decreases rest@.len(),
    {
        let mut mi: usize = 0;
        let mut j: usize = 1;
        while j < rest.len()
            invariant
                0 <= mi < j <= rest@.len(),
                forall|k: int|
                    0 <= k < j ==> spec_score_key(rest@[mi as int]) >= spec_score_key(
                        #[trigger] rest@[k],
                    ),
            decreases rest@.len() - j,
        {
            let a = match rest[j].score_micro {
                Some(s) => s,
                None => 0,
            };
            let b = match rest[mi].score_micro {
                Some(s) => s,
                None => 0,
            };
            if a > b {
                mi = j;
            }
            j = j + 1;
        }
        let ghost rest0 = rest@;
        let x = rest.remove(mi);
        let ghost out0 = out@;
        out.push(x);
        proof {
            assert(out@ =~= out0.push(x));
            assert(rest@ =~= rest0.remove(mi as int));
            assert(out@.to_multiset() =~= out0.to_multiset().insert(x));
            assert(rest0.to_multiset() =~= rest@.to_multiset().insert(x));
            assert_multisets_equal!(out@.to_multiset().add(rest@.to_multiset()), results@.to_multiset());
            assert forall|y: int| 0 <= y < rest@.len() implies spec_score_key(x) >= spec_score_key(
                #[trigger] rest@[y],
            ) by {
                if y < mi {
                    assert(rest@[y] == rest0[y]);
                } else {
                    assert(rest@[y] == rest0[y + 1]);
                }
            }
        }
    }
    proof {
        assert(rest@.to_multiset().len() == 0);
        assert(out@.to_multiset() =~= results@.to_multiset());
        assert forall|i: int| 0 <= i < out@.len() implies results@.contains(
            #[trigger] out@[i],
        ) by {
            assert(out@.contains(out@[i]));
            assert(results@.to_multiset().count(out@[i]) > 0);
        }
    }
    out
}

/// Resolves one engine hit to its position in the document store, if the
/// stored position is valid.
fn resolve_hit(
    ix: &TitleIndex,
    searcher: &tantivy::Searcher,
    addr: &tantivy::DocAddress,
) -> (r: Result<Option<usize>, String>)
    ensures
        r matches Ok(Some(i)) ==> i < ix.docs@.len(),
{
    let stored = match engine::fetch_document(searcher, addr) {
        Ok(d) => d,
        Err(e) => {
            return Err(e);
        },
    };
    match engine::get_first_i64(&stored, ix.fields.doc_idx) {
        Some(raw) => {
            if raw >= 0 && (raw as u64) < (ix.docs.len() as u64) {
                Ok(Some(raw as usize))
            } else {
                Ok(None)
            }
        },
        None => Ok(None),
    }
}

fn resolve_name_hit(
    ix: &NameIndex,
    searcher: &tantivy::Searcher,
    addr: &tantivy::DocAddress,
) -> (r: Result<Option<usize>, String>)
    ensures
        r matches Ok(Some(i)) ==> i < ix.docs@.len(),
{
    let stored = match engine::fetch_document(searcher, addr) {
        Ok(d) => d,
        Err(e) => {
            return Err(e);
        },
    };
    match engine::get_first_i64(&stored, ix.fields.doc_idx) {
        Some(raw) => {
            if raw >= 0 && (raw as u64) < (ix.docs.len() as u64) {
                Ok(Some(raw as usize))
            } else {
                Ok(None)
            }
        },
        None => Ok(None),
    }
}

/// Runs one title search: composes the plan's query, asks the engine for
/// candidates, and serves them — rescored and reordered by the relevance
/// scorer in relevance mode, carrying the engine's sort value otherwise.
/// A query the engine cannot parse is the caller's error; an engine
/// failure is internal.
pub fn run_title_search(ix: &TitleIndex, params: &TitleSearchParams, now_year: i64) -> (r: Result<
    TitleSearchResponse,
    ApiError,
>)
    requires
        ix.wf(),
    ensures
        r matches Ok(resp) ==> resp.results@.len() <= spec_clamped_limit(params.limit),
        (r matches Ok(resp) && (match params.sort {
            Some(s) => s == SortMode::Relevance,
            None => true,
        })) ==> spec_sorted_desc(r->Ok_0.results@) && (forall|i: int|
            0 <= i < r->Ok_0.results@.len() ==> (#[trigger] r->Ok_0.results@[i]).score_micro
                is Some),
        r matches Err(e) ==> (e is BadRequest || e is Internal),
{
    let plan = plan_title_query(params);
    let query = match compose_title_query(ix, &plan) {
        Ok(q) => q,
        Err(e) => {
            let mut msg = String::from_str("invalid query: ");
            msg.append(e.as_str());
            return Err(ApiError::bad_request(msg));
        },
    };
    let searcher = engine::searcher_of(&ix.reader);
    match plan.sort {
        SortMode::Relevance => {
            let hits = match engine::search_by_score(&searcher, &query, plan.limit) {
                Ok(h) => h,
                Err(e) => {
                    return Err(ApiError::internal(e));
                },
            };
            let mut results: Vec<TitleSearchResult> = Vec::new();
            let mut i: usize = 0;
            while i < hits.len()
                invariant
                    results@.len() <= i <= hits@.len(),
                    forall|x: int|
                        0 <= x < results@.len() ==> (#[trigger] results@[x]).score_micro is Some,
                decreases hits@.len() - i,
            {
                let ghost results0 = results@;
                let hit: &(u64, tantivy::DocAddress) = &hits[i];
                match resolve_hit(ix, &searcher, &hit.1) {
                    Ok(Some(idx)) => {
                        let mut result = document_to_title_result(&ix.docs[idx]);
                        let q_text: Option<&str> = match &plan.text {
                            Some(t) => Some(t.as_str()),
                            None => None,
                        };
                        let score = compute_title_relevance_score(hit.0, &result, q_text, now_year);
                        result.score_micro = Some(score);
                        results.push(result);
                        proof {
                            assert(results@ =~= results0.push(result));
                        }
                    },
                    Ok(None) => {},
                    Err(e) => {
                        return Err(ApiError::internal(e));
                    },
                }
                i = i + 1;
            }
            let ghost gathered = results@;
            let sorted = sort_by_score_desc(results);
            proof {
                assert(sorted@.len() <= hits@.len());
                assert forall|x: int| 0 <= x < sorted@.len() implies (#[trigger] sorted@[x]).score_micro is Some by {
                    assert(gathered.contains(sorted@[x]));
                    let j = choose|j: int| 0 <= j < gathered.len() && gathered[j] == sorted@[x];
                    assert(gathered[j].score_micro is Some);
                }
            }
            Ok(TitleSearchResponse { results: sorted })
        },
        SortMode::RatingDesc => run_title_field_sort(ix, &searcher, &query, plan.limit, true, true),
        SortMode::RatingAsc => run_title_field_sort(ix, &searcher, &query, plan.limit, true, false),
        SortMode::VotesDesc => run_title_field_sort(ix, &searcher, &query, plan.limit, false, true),
        SortMode::VotesAsc => run_title_field_sort(ix, &searcher, &query, plan.limit, false, false),
    }
}

/// Runs one field-sorted title search: the engine orders by the columnar
/// field and each hit carries the value it was ordered by.
fn run_title_field_sort(
    ix: &TitleIndex,
    searcher: &tantivy::Searcher,
    query: &EngineQuery,
    limit: usize,
    by_rating: bool,
    descending: bool,
) -> (r: Result<TitleSearchResponse, ApiError>)
    requires
        ix.wf(),
        1 <= limit,
    ensures
        r matches Ok(resp) ==> resp.results@.len() <= limit,
        r matches Err(e) ==> e is Internal,
{
    let field_name: &str = if by_rating {
        "averageRating"
    } else {
        "numVotes"
    };
    let hits = if descending {
        match engine::search_by_i64_field_desc(searcher, query, limit, field_name) {
            Ok(h) => h,
            Err(e) => {
                return Err(ApiError::internal(e));
            },
        }
    } else {
        match engine::search_by_i64_field_asc(searcher, query, limit, field_name) {
            Ok(h) => h,
            Err(e) => {
                return Err(ApiError::internal(e));
            },
        }
    };
    let mut results: Vec<TitleSearchResult> = Vec::new();
    let mut i: usize = 0;
    while i < hits.len()
        invariant
            results@.len() <= i <= hits@.len(),
        decreases hits@.len() - i,
    {
        let hit: &(Option<i64>, tantivy::DocAddress) = &hits[i];
        match resolve_hit(ix, searcher, &hit.1) {
            Ok(Some(idx)) => {
                let mut result = document_to_title_result(&ix.docs[idx]);
                result.sort_value = hit.0;
                results.push(result);
            },
            Ok(None) => {},
            Err(e) => {
                return Err(ApiError::internal(e));
            },
        }
        i = i + 1;
    }
    Ok(TitleSearchResponse { results })
}

/// The ranking key of a served person result.
pub open spec fn spec_name_score_key(r: NameSearchResult) -> u64 {
    match r.score_micro {
        Some(s) => s,
        None => 0,
    }
}

/// Non-increasing ranking keys over person results.
pub open spec fn spec_name_sorted_desc(rs: Seq<NameSearchResult>) -> bool {
    forall|i: int, j: int|
        0 <= i < j < rs.len() ==> spec_name_score_key(#[trigger] rs[i]) >= spec_name_score_key(
            #[trigger] rs[j],
        )
}

/// Whether a person request carries any structured filter.
pub open spec fn spec_name_has_filters(params: NameSearchParams) -> bool {
    params.birth_year_min is Some || params.birth_year_max is Some
        || params.primary_profession@.len() > 0
}

/// Runs one person search.  A request with neither text nor any filter is
/// rejected as the caller's error; otherwise the engine's candidates are
/// served in its lexical order, with their scores.
#[verifier::loop_isolation(false)]
pub fn run_name_search(ix: &NameIndex, params: &NameSearchParams) -> (r: Result<
    NameSearchResponse,
    ApiError,
>)
    requires
        ix.wf(),
    ensures
        r matches Ok(resp) ==> resp.results@.len() <= spec_clamped_limit(params.limit),
        r matches Ok(resp) ==> spec_name_sorted_desc(resp.results@),
        trim_of(params.query@).len() == 0 && !spec_name_has_filters(*params) ==> (r matches Err(e)
            && e is BadRequest),
        r matches Err(e) ==> (e is BadRequest || e is Internal),
{
    let query_text = trim(params.query.as_str());
    let has_filters = params.birth_year_min.is_some() || params.birth_year_max.is_some()
        || params.primary_profession.len() > 0;
    if query_text.unicode_len() == 0 && !has_filters {
        return Err(ApiError::bad_request(String::from_str("provide a query or at least one filter")));
    }
    let limit = clamp_limit(params.limit);
    let mut clauses: Vec<EngineQuery> = Vec::new();
    if query_text.unicode_len() > 0 {
        match engine::parse_user_query(&ix.query_parser, query_text) {
            Ok(q) => {
                clauses.push(q);
            },
            Err(e) => {
                let mut msg = String::from_str("invalid query: ");
                msg.append(e.as_str());
                return Err(ApiError::bad_request(msg));
            },
        }
    }
    if params.birth_year_min.is_some() || params.birth_year_max.is_some() {
        clauses.push(
            engine::range_query_i64(
                ix.fields.birth_year,
                params.birth_year_min,
                params.birth_year_max,
            ),
        );
    }
    let mut i: usize = 0;
    while i < params.primary_profession.len()
        decreases params.primary_profession@.len() - i,
    {
        let p: &String = &params.primary_profession[i];
        if p.as_str().unicode_len() > 0 {
            clauses.push(engine::term_query(ix.fields.primary_profession, p.as_str()));
        }
        i = i + 1;
    }
    let query: EngineQuery = if clauses.len() == 0 {
        engine::match_all()
    } else if clauses.len() == 1 {
        match clauses.pop() {
            Some(q) => q,
            None => engine::match_all(),
        }
    } else {
        engine::all_must(clauses)
    };
    let searcher = engine::searcher_of(&ix.reader);
    let hits = match engine::search_by_score(&searcher, &query, limit) {
        Ok(h) => h,
        Err(e) => {
            return Err(ApiError::internal(e));
        },
    };
    let mut results: Vec<NameSearchResult> = Vec::new();
    let mut k: usize = 0;
    while k < hits.len()
        invariant
            results@.len() <= k <= hits@.len(),
            spec_name_sorted_desc(results@),
            forall|x: int, y: int|
                0 <= x < results@.len() && k <= y < hits@.len() ==> spec_name_score_key(
                    #[trigger] results@[x],
                ) >= (#[trigger] hits@[y]).0,
        decreases hits@.len() - k,
    {
        let ghost results0 = results@;
        let hit: &(u64, tantivy::DocAddress) = &hits[k];
        match resolve_name_hit(ix, &searcher, &hit.1) {
            Ok(Some(idx)) => {
                let mut result = document_to_name_result(&ix.docs[idx]);
                result.score_micro = Some(hit.0);
                results.push(result);
                proof {
                    assert(results@ =~= results0.push(result));
                }
            },
            Ok(None) => {},
            Err(e) => {
                return Err(ApiError::internal(e));
            },
        }
        k = k + 1;
    }
    Ok(NameSearchResponse { results })
}

/// Fetches one title document by its exact key.  An unknown key is a
/// distinct not-found outcome — never an empty list, never an internal
/// error — and a known key reproduces every populated field of the stored
/// document exactly.
pub fn get_title_by_id(ix: &TitleIndex, tconst: &str) -> (r: Result<TitleSearchResult, ApiError>)
    requires
        ix.wf(),
    ensures
        (r is Ok) == ix.ids@.contains_key(tconst@),
        r matches Ok(res) ==> ix.ids@[tconst@] < ix.docs@.len() && {
            let d = ix.docs.deep_view()[ix.ids@[tconst@] as int];
            &&& res.tconst@ == d.tconst
            &&& d.tconst == tconst@
            &&& res.primary_title@ == d.primary_title
            &&& res.original_title.deep_view() == d.original_title
            &&& (res.title_type matches Some(t) && t@ == d.title_type)
            &&& res.start_year == d.start_year
            &&& res.end_year == d.end_year
            &&& (match res.genres {
                Some(g) => d.genres.len() > 0 && g.deep_view() == d.genres,
                None => d.genres.len() == 0,
            })
            &&& res.average_rating_tenths == d.average_rating_tenths
            &&& res.num_votes == d.num_votes
            &&& res.score_micro is None
            &&& res.sort_value is None
        },
        r matches Err(e) ==> e is NotFound,
{
    let n_docs = ix.docs.len();
    match ix.ids.get(tconst) {
        Some(idx) => {
            let i: usize = *idx;
            proof {
                lemma_ids_sound(spec_title_keys(ix.docs.deep_view()), tconst@);
            }
            let result = document_to_title_result(&ix.docs[i]);
            proof {
                let d = ix.docs.deep_view()[i as int];
                assert(ix.docs@[i as int]@ == d);
                if result.genres is Some {
                    assert(result.genres->Some_0.deep_view() =~= d.genres);
                }
            }
            Ok(result)
        },
        None => Err(ApiError::not_found(String::from_str("title not found"))),
    }
}

/// Fetches one person document by its exact key, with the same not-found
/// contract as the title lookup.
pub fn get_name_by_id(ix: &NameIndex, nconst: &str) -> (r: Result<NameSearchResult, ApiError>)
    requires
        ix.wf(),
    ensures
        (r is Ok) == ix.ids@.contains_key(nconst@),
        r matches Ok(res) ==> ix.ids@[nconst@] < ix.docs@.len() && {
            let d = ix.docs.deep_view()[ix.ids@[nconst@] as int];
            &&& res.nconst@ == d.nconst
            &&& d.nconst == nconst@
            &&& res.primary_name@ == d.primary_name
            &&& res.birth_year == d.birth_year
            &&& res.death_year == d.death_year
            &&& (match res.primary_profession {
                Some(p) => d.primary_profession.len() > 0 && p.deep_view()
                    == crate::docs::spec_csv_items(
                    crate::rows::spec_split(d.primary_profession, ','),
                ),
                None => d.primary_profession.len() == 0,
            })
            &&& (match res.known_for_titles {
                Some(kf) => d.known_for_titles.len() > 0 && kf.deep_view()
                    == crate::docs::spec_csv_items(
                    crate::rows::spec_split(d.known_for_titles, ','),
                ),
                None => d.known_for_titles.len() == 0,
            })
            &&& res.score_micro is None
        },
        r matches Err(e) ==> e is NotFound,
{
    let n_docs = ix.docs.len();
    match ix.ids.get(nconst) {
        Some(idx) => {
            let i: usize = *idx;
            proof {
                lemma_ids_sound(spec_name_keys(ix.docs.deep_view()), nconst@);
            }
            let result = document_to_name_result(&ix.docs[i]);
            proof {
                assert(ix.docs@[i as int]@ == ix.docs.deep_view()[i as int]);
            }
            Ok(result)
        },
        None => Err(ApiError::not_found(String::from_str("name not found"))),
    }
}

} // verus!
