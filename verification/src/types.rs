//! The request, result and error types of the two search collections.
//! Ratings travel as integer tenths of a rating point and scores as integer
//! micro units; the serving layer owns their display form.

use vstd::prelude::*;

verus! {

/// How title search results are ordered.
#[derive(Clone, Copy, PartialEq, Eq, Structural, Debug)]
pub enum SortMode {
    Relevance,
    RatingDesc,
    RatingAsc,
    VotesDesc,
    VotesAsc,
}

impl Default for SortMode {
    /// Relevance order is the default.
    fn default() -> (r: Self)
        ensures
            r == SortMode::Relevance,
    {
        SortMode::Relevance
    }
}

/// A structured title search request.
pub struct TitleSearchParams {
    pub query: Option<String>,
    pub limit: Option<usize>,
    pub title_type: Option<String>,
    pub start_year_min: Option<i64>,
    pub start_year_max: Option<i64>,
    pub end_year_min: Option<i64>,
    pub end_year_max: Option<i64>,
    pub min_rating_tenths: Option<i64>,
    pub max_rating_tenths: Option<i64>,
    pub min_votes: Option<i64>,
    pub max_votes: Option<i64>,
    pub genres: Vec<String>,
    pub sort: Option<SortMode>,
}

/// One title hit, with the fields stored for it; fields absent in the
/// document stay absent here.
pub struct TitleSearchResult {
    pub tconst: String,
    pub primary_title: String,
    pub original_title: Option<String>,
    pub title_type: Option<String>,
    pub start_year: Option<i64>,
    pub end_year: Option<i64>,
    pub genres: Option<Vec<String>>,
    pub average_rating_tenths: Option<i64>,
    pub num_votes: Option<i64>,
    pub score_micro: Option<u64>,
    pub sort_value: Option<i64>,
}

pub struct TitleSearchResponse {
    pub results: Vec<TitleSearchResult>,
}

/// A structured person search request.
pub struct NameSearchParams {
    pub query: String,
    pub limit: Option<usize>,
    pub birth_year_min: Option<i64>,
    pub birth_year_max: Option<i64>,
    pub primary_profession: Vec<String>,
}

/// One person hit.
pub struct NameSearchResult {
    pub nconst: String,
    pub primary_name: String,
    pub birth_year: Option<i64>,
    pub death_year: Option<i64>,
    pub primary_profession: Option<Vec<String>>,
    pub known_for_titles: Option<Vec<String>>,
    pub score_micro: Option<u64>,
}

pub struct NameSearchResponse {
    pub results: Vec<NameSearchResult>,
}

/// What a failed request reports: a client-side rejection, a missing
/// document, or an internal failure whose detail stays server-side.
#[derive(Debug)]
pub enum ApiError {
    BadRequest(String),
    NotFound(String),
    Internal(String),
}

impl ApiError {
    pub fn bad_request(message: String) -> (r: Self)
        ensures
            r == ApiError::BadRequest(message),
    {
        ApiError::BadRequest(message)
    }

    pub fn internal(detail: String) -> (r: Self)
        ensures
            r == ApiError::Internal(detail),
    {
        ApiError::Internal(detail)
    }

    pub fn not_found(message: String) -> (r: Self)
        ensures
            r == ApiError::NotFound(message),
    {
        ApiError::NotFound(message)
    }
}

/// The body served with a failed request.
pub struct ErrorBody {
    pub message: String,
}

} // verus!
