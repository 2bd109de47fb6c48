//! Tests of the relevance scorer: the rewarded signals, the ordering
//! policies, and one pinned value of the whole formula.

use imdb_rs::engine::current_year;
use imdb_rs::scoring::compute_title_relevance_score;
use imdb_rs::types::TitleSearchResult;

fn title(
    tconst: &str,
    primary_title: &str,
    title_type: &str,
    start_year: Option<i64>,
    end_year: Option<i64>,
    rating_tenths: Option<i64>,
    num_votes: Option<i64>,
) -> TitleSearchResult {
    TitleSearchResult {
        tconst: tconst.to_string(),
        primary_title: primary_title.to_string(),
        original_title: None,
        title_type: Some(title_type.to_string()),
        start_year,
        end_year,
        genres: None,
        average_rating_tenths: rating_tenths,
        num_votes,
        score_micro: None,
        sort_value: None,
    }
}

#[test]
fn relevance_score_rewards_rating_votes_and_recency() {
    let base = 1000;
    let now = current_year();
    let high = title("tt1", "High", "movie", Some(2020), Some(2020), Some(85), Some(50_000));
    let low = title("tt2", "Low", "movie", Some(1990), Some(1990), Some(60), Some(10));

    let high_score = compute_title_relevance_score(base, &high, Some("high"), now);
    let low_score = compute_title_relevance_score(base, &low, Some("low"), now);

    assert!(high_score > low_score);
}

#[test]
fn api_relevance_score_rewards_rating_votes_and_recency() {
    let base = 1000;
    let now = current_year();
    let high = title("tt1", "High", "movie", Some(2020), Some(2020), Some(85), Some(50_000));
    let low = title("tt2", "Low", "movie", Some(1990), Some(1990), Some(60), Some(10));

    let high_score = compute_title_relevance_score(base, &high, Some("high"), now);
    let low_score = compute_title_relevance_score(base, &low, Some("low"), now);

    assert!(high_score > low_score);
}

#[test]
fn higher_rating_and_votes_outweigh_recency() {
    let base = 2000;
    let now = current_year();
    let recent = title(
        "tt_new",
        "One Piece",
        "tvSeries",
        Some(2023),
        None,
        Some(83),
        Some(179_650),
    );
    let classic = title(
        "tt_classic",
        "One Piece",
        "tvSeries",
        Some(1999),
        Some(1999),
        Some(90),
        Some(321_631),
    );

    let recent_score = compute_title_relevance_score(base, &recent, Some("one piece"), now);
    let classic_score = compute_title_relevance_score(base, &classic, Some("one piece"), now);

    assert!(
        classic_score > recent_score,
        "classic should outrank recent due to higher rating/votes"
    );
}

#[test]
fn exact_title_match_outranks_partial_even_with_lower_base() {
    let now = current_year();
    let exact = title("tt_exact", "Up", "movie", Some(2009), Some(2009), Some(83), Some(1_201_529));
    let partial = title(
        "tt_partial",
        "No Way Up",
        "movie",
        Some(2024),
        Some(2024),
        Some(46),
        Some(11_321),
    );

    let exact_score = compute_title_relevance_score(750, &exact, Some("up"), now);
    let partial_score = compute_title_relevance_score(5000, &partial, Some("up"), now);

    assert!(
        exact_score > partial_score,
        "exact title match with better rating should outrank partial match"
    );
}

#[test]
fn score_is_pinned_for_one_plain_candidate() {
    // No query, rating eight flat, votes equal to the prior strength: the
    // shrunk rating sits midway and the whole fixed-point formula lands on
    // one exact value.
    let t = title("tt0", "Example", "movie", Some(2000), Some(2000), Some(80), Some(12_000));
    let score = compute_title_relevance_score(1000, &t, None, 2026);
    assert_eq!(score, 3_134_317);
}

#[test]
fn cold_start_candidate_scores_markedly_lower() {
    let now = current_year();
    let sparse = title("tt_a", "Same", "movie", Some(2015), Some(2015), Some(70), Some(10));
    let proven = title("tt_b", "Same", "movie", Some(2015), Some(2015), Some(70), Some(100_000));
    let sparse_score = compute_title_relevance_score(1000, &sparse, Some("same"), now);
    let proven_score = compute_title_relevance_score(1000, &proven, Some("same"), now);
    assert!(sparse_score < proven_score);
    // Markedly: the dampened candidate does not reach half the other's score.
    assert!(sparse_score * 2 < proven_score);
}

#[test]
fn query_case_and_whitespace_are_folded() {
    let now = current_year();
    let t = title("tt_up", "Up", "movie", Some(2009), Some(2009), Some(83), Some(1_201_529));
    let plain = compute_title_relevance_score(750, &t, Some("up"), now);
    let shouted = compute_title_relevance_score(750, &t, Some("  UP  "), now);
    let unrelated = compute_title_relevance_score(750, &t, Some("zz"), now);
    assert_eq!(plain, shouted);
    assert!(shouted > unrelated);
}

#[test]
fn running_series_counts_as_current() {
    // Identical series except one has ended long ago; the running one gets
    // the recency tilt of the current year.
    let now = current_year();
    let running = title("tt_r", "Show", "tvSeries", Some(1995), None, Some(70), Some(10_000));
    let ended = title("tt_e", "Show", "tvSeries", Some(1995), Some(1996), Some(70), Some(10_000));
    let running_score = compute_title_relevance_score(1000, &running, Some("show"), now);
    let ended_score = compute_title_relevance_score(1000, &ended, Some("show"), now);
    assert!(running_score > ended_score);
}
