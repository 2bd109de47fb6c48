//! End-to-end tests against the real engine: indexes built in memory from
//! source rows, queried through the library's search and lookup paths.

use imdb_rs::engine::{current_year, index_exists};
use imdb_rs::indexer::{build_name_index_in_ram, build_title_index_in_ram, NameIndex, TitleIndex};
use imdb_rs::search::{get_name_by_id, get_title_by_id, run_name_search, run_title_search};
use imdb_rs::strmap::StrMap;
use imdb_rs::types::{ApiError, NameSearchParams, SortMode, TitleSearchParams};
use imdb_rs::xref::{load_name_map, load_principals_map};

fn lines(raw: &[&str]) -> Vec<String> {
    raw.iter().map(|s| s.to_string()).collect()
}

fn matrix_title_index() -> TitleIndex {
    let basics = lines(&[
        "tt0133093\tmovie\tThe Matrix\tThe Matrix\t0\t1999\t1999\t136\tAction,Sci-Fi",
    ]);
    let ratings = lines(&["tt0133093\t8.7\t1900000"]);
    let akas = lines(&["tt0133093\t1\tMatrix"]);
    let names = lines(&["nm0000206\tKeanu Reeves\t1964\t\\N\tactor\ttt0133093"]);
    let principals = lines(&["tt0133093\t1\tnm0000206\tactor"]);
    let name_lookup = load_name_map(&names);
    let cast = load_principals_map(&principals, &name_lookup);
    build_title_index_in_ram(&basics, &ratings, &akas, &cast).expect("title index builds")
}

fn keanu_name_index() -> NameIndex {
    let names = lines(&["nm0000206\tKeanu Reeves\t1964\t\\N\tactor\ttt0133093"]);
    build_name_index_in_ram(&names).expect("name index builds")
}

fn empty_title_params() -> TitleSearchParams {
    TitleSearchParams {
        query: None,
        limit: None,
        title_type: None,
        start_year_min: None,
        start_year_max: None,
        end_year_min: None,
        end_year_max: None,
        min_rating_tenths: None,
        max_rating_tenths: None,
        min_votes: None,
        max_votes: None,
        genres: Vec::new(),
        sort: None,
    }
}

#[test]
fn title_search_returns_expected_result() {
    let ix = matrix_title_index();
    let mut params = empty_title_params();
    params.query = Some("Matrix".to_string());
    let resp = run_title_search(&ix, &params, current_year()).expect("search succeeds");
    assert_eq!(resp.results.len(), 1);
    assert_eq!(resp.results[0].tconst, "tt0133093");
    assert!(resp.results[0].score_micro.is_some());
}

#[test]
fn title_id_endpoint_returns_document() {
    let ix = matrix_title_index();
    let result = get_title_by_id(&ix, "tt0133093").expect("known id");
    assert_eq!(result.primary_title, "The Matrix");
    assert_eq!(result.average_rating_tenths, Some(87));
    assert_eq!(result.num_votes, Some(1_900_000));
    assert_eq!(result.start_year, Some(1999));
    assert_eq!(
        result.genres,
        Some(vec!["Action".to_string(), "Sci-Fi".to_string()])
    );
}

#[test]
fn absent_id_is_a_not_found_outcome() {
    let ix = matrix_title_index();
    match get_title_by_id(&ix, "tt9999999") {
        Err(ApiError::NotFound(_)) => {},
        _ => panic!("an absent id must be a distinct not-found outcome"),
    }
    let names = keanu_name_index();
    match get_name_by_id(&names, "nm9999999") {
        Err(ApiError::NotFound(_)) => {},
        _ => panic!("an absent id must be a distinct not-found outcome"),
    }
}

#[test]
fn name_search_supports_typos_and_filters() {
    let ix = keanu_name_index();
    let params = NameSearchParams {
        query: "Kean".to_string(),
        limit: None,
        birth_year_min: Some(1900),
        birth_year_max: None,
        primary_profession: vec!["actor".to_string()],
    };
    let resp = run_name_search(&ix, &params).expect("search succeeds");
    assert_eq!(resp.results.len(), 1);
    assert_eq!(resp.results[0].nconst, "nm0000206");
    assert_eq!(resp.results[0].primary_name, "Keanu Reeves");
    assert_eq!(
        resp.results[0].known_for_titles,
        Some(vec!["tt0133093".to_string()])
    );
}

#[test]
fn name_lookup_by_exact_id() {
    let ix = keanu_name_index();
    let result = get_name_by_id(&ix, "nm0000206").expect("known id");
    assert_eq!(result.primary_name, "Keanu Reeves");
    assert_eq!(result.birth_year, Some(1964));
    assert_eq!(
        result.primary_profession,
        Some(vec!["actor".to_string()])
    );
}

#[test]
fn empty_name_request_is_rejected() {
    let ix = keanu_name_index();
    let params = NameSearchParams {
        query: "   ".to_string(),
        limit: None,
        birth_year_min: None,
        birth_year_max: None,
        primary_profession: Vec::new(),
    };
    match run_name_search(&ix, &params) {
        Err(ApiError::BadRequest(_)) => {},
        _ => panic!("a request with neither text nor filters must be rejected"),
    }
}

#[test]
fn unparsable_query_is_the_callers_error() {
    let ix = matrix_title_index();
    let mut params = empty_title_params();
    params.query = Some("title:\"unterminated".to_string());
    match run_title_search(&ix, &params, current_year()) {
        Err(ApiError::BadRequest(_)) => {},
        Ok(_) => panic!("expected the query parser to reject this input"),
        Err(_) => panic!("a malformed query must be the caller's error"),
    }
}

#[test]
fn default_category_filter_matches_either_kind() {
    // Two documents of the two default categories: an unfiltered request
    // must return both, so the default filter is a true or-group, not a
    // contradiction.
    let basics = lines(&[
        "tt1\tmovie\tAlpha Story\t\\N\t0\t1999\t\\N\t100\tDrama",
        "tt2\ttvSeries\tBeta Story\t\\N\t0\t2001\t\\N\t30\tDrama",
        "tt3\tvideoGame\tGamma Story\t\\N\t0\t2005\t\\N\t1\tAction",
    ]);
    let ratings = lines(&["tt1\t7.0\t5000", "tt2\t7.0\t5000", "tt3\t7.0\t5000"]);
    let empty: Vec<String> = Vec::new();
    let cast: StrMap<Vec<String>> = StrMap::new();
    let ix = build_title_index_in_ram(&basics, &ratings, &empty, &cast).expect("builds");
    let params = empty_title_params();
    let resp = run_title_search(&ix, &params, current_year()).expect("search succeeds");
    let mut ids: Vec<String> = resp.results.iter().map(|r| r.tconst.clone()).collect();
    ids.sort();
    assert_eq!(ids, vec!["tt1".to_string(), "tt2".to_string()]);
}

#[test]
fn field_sorted_search_carries_the_sort_value() {
    let basics = lines(&[
        "tt1\tmovie\tAlpha Story\t\\N\t0\t1999\t\\N\t100\tDrama",
        "tt2\tmovie\tBeta Story\t\\N\t0\t2001\t\\N\t100\tDrama",
    ]);
    let ratings = lines(&["tt1\t9.0\t5000", "tt2\t5.0\t9000"]);
    let empty: Vec<String> = Vec::new();
    let cast: StrMap<Vec<String>> = StrMap::new();
    let ix = build_title_index_in_ram(&basics, &ratings, &empty, &cast).expect("builds");
    let mut params = empty_title_params();
    params.sort = Some(SortMode::RatingDesc);
    let resp = run_title_search(&ix, &params, current_year()).expect("search succeeds");
    assert_eq!(resp.results.len(), 2);
    assert_eq!(resp.results[0].tconst, "tt1");
    assert_eq!(resp.results[0].sort_value, Some(90));
    assert_eq!(resp.results[1].sort_value, Some(50));
    params.sort = Some(SortMode::VotesDesc);
    let resp = run_title_search(&ix, &params, current_year()).expect("search succeeds");
    assert_eq!(resp.results[0].tconst, "tt2");
    assert_eq!(resp.results[0].sort_value, Some(9000));
    params.sort = Some(SortMode::VotesAsc);
    let resp = run_title_search(&ix, &params, current_year()).expect("search succeeds");
    assert_eq!(resp.results[0].tconst, "tt1");
}

#[test]
fn range_filters_are_inclusive() {
    let basics = lines(&[
        "tt1\tmovie\tAlpha Story\t\\N\t0\t1999\t\\N\t100\tDrama",
        "tt2\tmovie\tBeta Story\t\\N\t0\t2005\t\\N\t100\tDrama",
    ]);
    let ratings = lines(&["tt1\t7.0\t5000", "tt2\t7.0\t5000"]);
    let empty: Vec<String> = Vec::new();
    let cast: StrMap<Vec<String>> = StrMap::new();
    let ix = build_title_index_in_ram(&basics, &ratings, &empty, &cast).expect("builds");
    let mut params = empty_title_params();
    params.start_year_min = Some(2000);
    params.start_year_max = Some(2005);
    let resp = run_title_search(&ix, &params, current_year()).expect("search succeeds");
    assert_eq!(resp.results.len(), 1);
    assert_eq!(resp.results[0].tconst, "tt2");
}

#[test]
fn genre_filter_narrows_results() {
    let basics = lines(&[
        "tt1\tmovie\tAlpha Story\t\\N\t0\t1999\t\\N\t100\tDrama",
        "tt2\tmovie\tBeta Story\t\\N\t0\t2001\t\\N\t100\tAction,Drama",
    ]);
    let ratings = lines(&["tt1\t7.0\t5000", "tt2\t7.0\t5000"]);
    let empty: Vec<String> = Vec::new();
    let cast: StrMap<Vec<String>> = StrMap::new();
    let ix = build_title_index_in_ram(&basics, &ratings, &empty, &cast).expect("builds");
    let mut params = empty_title_params();
    params.genres = vec!["action".to_string()];
    let resp = run_title_search(&ix, &params, current_year()).expect("search succeeds");
    assert_eq!(resp.results.len(), 1);
    assert_eq!(resp.results[0].tconst, "tt2");
}

#[test]
fn alias_recall_reaches_cast_names() {
    // The recall-only alias field carries the resolved cast names, so a
    // query for an actor finds the title.
    let ix = matrix_title_index();
    let mut params = empty_title_params();
    params.query = Some("Keanu".to_string());
    let resp = run_title_search(&ix, &params, current_year()).expect("search succeeds");
    assert_eq!(resp.results.len(), 1);
    assert_eq!(resp.results[0].tconst, "tt0133093");
}

#[test]
fn missing_index_directory_has_no_marker() {
    assert!(!index_exists("no-such-directory-for-these-tests"));
}
