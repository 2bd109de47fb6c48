//! The relevance scorer: a pure function from one candidate's stored
//! fields, the engine's lexical base score and the query text to a final
//! ranking score.  All arithmetic is fixed-point in micro units; the
//! lexical base score arrives in milli units from the engine boundary.
//!
//! The steps mirror the ranking design exactly: compress the base signal,
//! classify the title match and reward it, shrink the rating toward the
//! corpus average in proportion to the evidence, reward popularity on a
//! log scale, tilt gently by recency, combine, and dampen candidates with
//! too few votes to be trusted.

use vstd::prelude::*;
use crate::numeric::{
    lemma_div_add_ge, lemma_ln_frac_bounds, lemma_ln_scaled_mono, lemma_octave_is, ln_scaled,
    spec_ln_scaled, LN2_MICRO,
};
use crate::text::{
    chars_of, contains_seq, contains_word, is_prefix_of, lowercase, lower_of, seq_eq,
    spec_contains, spec_contains_word, spec_is_prefix, str_eq, trim, trim_of,
};
use crate::types::TitleSearchResult;
use vstd::arithmetic::div_mod::{lemma_div_is_ordered, lemma_multiply_divide_le};
use vstd::arithmetic::mul::lemma_mul_inequality;
use vstd::arithmetic::power2::{lemma2_to64, lemma2_to64_rest};

verus! {

/// The corpus-average rating the shrinkage pulls toward, in micro units.
pub const GLOBAL_AVG_MICRO: u64 = 6_700_000;

/// The prior strength of the shrinkage, in votes.
pub const PRIOR_VOTES: u64 = 12_000;

/// The reference vote ceiling the popularity signal is normalized by.
pub const POP_REF_VOTES: u64 = 2_000_000;

/// A candidate's vote count, clamped to zero when absent or negative.
pub open spec fn spec_votes_of(v: Option<i64>) -> int {
    match v {
        None => 0,
        Some(x) => if x < 0 {
            0
        } else {
            x as int
        },
    }
}

/// A candidate's rating in micro units: five flat when absent, clamped to
/// the zero-to-ten scale.
pub open spec fn spec_rating_micro(r: Option<i64>) -> int {
    let tenths: int = match r {
        None => 50,
        Some(v) => if v < 0 {
            0
        } else if v > 100 {
            100
        } else {
            v as int
        },
    };
    tenths * 100_000
}

/// The shrunk rating: a weighted average of the candidate's rating and the
/// corpus average, weighted by its votes against the prior strength.  With
/// no votes the corpus average stands alone.
pub open spec fn spec_wr_micro(rating_micro: int, votes: int) -> int {
    if votes <= 0 {
        GLOBAL_AVG_MICRO as int
    } else {
        (votes * rating_micro + (PRIOR_VOTES as int) * (GLOBAL_AVG_MICRO as int)) / (votes
            + PRIOR_VOTES as int)
    }
}

/// The quality contribution: the shrunk rating mapped onto zero to three.
pub open spec fn spec_rating_component(rating: Option<i64>, votes: int) -> int {
    spec_wr_micro(spec_rating_micro(rating), votes) * 3 / 10
}

pub open spec fn spec_ln1p(v: int) -> int {
    spec_ln_scaled((v + 1) as nat)
}

/// The popularity contribution: the log-scaled vote count against the
/// reference ceiling, mapped onto roughly zero to two point two.
pub open spec fn spec_pop_component(votes: int) -> int {
    if votes <= 0 {
        0
    } else {
        spec_ln1p(votes) * 2_200_000 / spec_ln1p(POP_REF_VOTES as int)
    }
}

/// Categories that stand for a still-running series when no end period is
/// stored.
pub open spec fn spec_is_series_kind(t: Option<Seq<char>>) -> bool {
    match t {
        Some(s) => s == "tvSeries"@ || s == "tvMiniSeries"@ || s == "tvEpisode"@,
        None => false,
    }
}

/// The year the recency tilt reads: the end period when present, else the
/// start period; a running series counts as current.
pub open spec fn spec_recency_year(
    t: Option<Seq<char>>,
    start: Option<i64>,
    end: Option<i64>,
    now_year: i64,
) -> int {
    if spec_is_series_kind(t) && end is None {
        now_year as int
    } else {
        match end {
            Some(y) => y as int,
            None => match start {
                Some(y) => y as int,
                None => 0,
            },
        }
    }
}

/// The recency contribution: linear around the center year, clamped to a
/// small band so it can only tilt among otherwise-similar candidates.
pub open spec fn spec_year_component(y: int) -> int {
    if y == 0 {
        0
    } else if y >= 2012 {
        let up = (y - 2012) * 1_000_000 / 90;
        if up > 150_000 {
            150_000
        } else {
            up
        }
    } else {
        let down = (2012 - y) * 1_000_000 / 90;
        if down > 100_000 {
            -100_000
        } else {
            -down
        }
    }
}

/// The query after trimming and case folding.
pub open spec fn spec_needle(q: Seq<char>) -> Seq<char> {
    lower_of(trim_of(q))
}

pub open spec fn spec_short(n: Seq<char>) -> bool {
    n.len() <= 3
}

/// The title-match bonus for a non-empty needle against the folded name:
/// exact equality is rewarded most, a whole-token match of a short query
/// next, then a prefix, then a long substring; a short query that merely
/// occurs inside the name is noise and is pushed down.
pub open spec fn spec_match_bonus(h: Seq<char>, n: Seq<char>) -> int {
    if h == n {
        if spec_short(n) {
            7_000_000
        } else {
            6_000_000
        }
    } else if spec_short(n) && spec_contains_word(h, n) {
        1_200_000
    } else if spec_is_prefix(h, n) {
        900_000
    } else if !spec_short(n) && spec_contains(h, n) {
        400_000
    } else if spec_short(n) {
        -800_000
    } else {
        -300_000
    }
}

/// The compressed base signal: the log of one plus the raw lexical score.
pub open spec fn spec_base_compressed(base_milli: int) -> int {
    spec_ln_scaled((base_milli + 1000) as nat) - spec_ln_scaled(1000)
}

/// An exact title match floors the compressed base at a fixed high value.
pub open spec fn spec_base_with_exact(base_c: int, h: Seq<char>, n: Seq<char>) -> int {
    if h == n {
        let floor_v: int = if spec_short(n) {
            4_500_000
        } else {
            3_800_000
        };
        if base_c < floor_v {
            floor_v
        } else {
            base_c
        }
    } else {
        base_c
    }
}

/// The cold-start dampening factor, in permille of the combined multiplier.
pub open spec fn spec_damp_permille(votes: int) -> int {
    if votes < 50 {
        200
    } else if votes < 500 {
        500
    } else if votes < 2000 {
        800
    } else {
        1000
    }
}

/// The combined multiplier before dampening.
pub open spec fn spec_combined(
    name: Seq<char>,
    t: Option<Seq<char>>,
    start: Option<i64>,
    end: Option<i64>,
    rating: Option<i64>,
    votes: int,
    needle: Option<Seq<char>>,
    now_year: i64,
) -> int {
    let bonus: int = match needle {
        None => 0,
        Some(n) => spec_match_bonus(lower_of(name), n),
    };
    1_000_000 + spec_rating_component(rating, votes) + spec_pop_component(votes)
        + spec_year_component(spec_recency_year(t, start, end, now_year)) + bonus
}

/// The needle the scorer works with: the trimmed, folded query, or nothing
/// when no query was given or nothing of it remains.
pub open spec fn spec_needle_of(q: Option<Seq<char>>) -> Option<Seq<char>> {
    match q {
        None => None,
        Some(qs) => if spec_needle(qs).len() == 0 {
            None
        } else {
            Some(spec_needle(qs))
        },
    }
}

/// The whole scorer, in micro units.
pub open spec fn spec_title_score(
    base_milli: int,
    name: Seq<char>,
    t: Option<Seq<char>>,
    start: Option<i64>,
    end: Option<i64>,
    rating: Option<i64>,
    votes_field: Option<i64>,
    q: Option<Seq<char>>,
    now_year: i64,
) -> int {
    let votes = spec_votes_of(votes_field);
    let needle = spec_needle_of(q);
    let base0 = spec_base_compressed(base_milli);
    let base_c: int = match needle {
        None => base0,
        Some(n) => spec_base_with_exact(base0, lower_of(name), n),
    };
    let combined = spec_combined(name, t, start, end, rating, votes, needle, now_year);
    let damped = combined * spec_damp_permille(votes) / 1000;
    let floored: int = if damped < 50_000 {
        50_000
    } else {
        damped
    };
    base_c * floored / 1_000_000
}

/// The quality contribution, bounded by three.
pub fn rating_component(rating_tenths: Option<i64>, votes: u64) -> (r: u64)
    ensures
        r as int == spec_rating_component(rating_tenths, votes as int),
        r <= 3_000_000,
{
    let t: u64 = match rating_tenths {
        None => 50,
        Some(v) => if v < 0 {
            0
        } else if v > 100 {
            100
        } else {
            v as u64
        },
    };
    let rm: u128 = (t as u128) * 100_000;
    let wr: u128 = if votes == 0 {
        6_700_000
    } else {
        proof {
            assert((votes as int) * (rm as int) <= 0xffff_ffff_ffff_ffff * 10_000_000int)
                by (nonlinear_arith)
                requires
                    votes <= 0xffff_ffff_ffff_ffffu64,
                    0 <= rm <= 10_000_000,
            ;
        }
        let num: u128 = (votes as u128) * rm + 12_000u128 * 6_700_000u128;
        let den: u128 = votes as u128 + 12_000;
        proof {
            assert((votes as int) * (rm as int) <= (votes as int) * 10_000_000) by (nonlinear_arith)
                requires
                    rm <= 10_000_000,
                    votes >= 0,
            ;
            assert((votes as int) * 10_000_000 + 12_000 * 6_700_000 <= (den as int) * 10_000_000)
                by (nonlinear_arith)
                requires
                    den as int == votes as int + 12_000,
                    votes >= 0,
            ;
            lemma_multiply_divide_le(num as int, den as int, 10_000_000);
        }
        num / den
    };
    proof {
        assert(wr <= 10_000_000);
        lemma_div_is_ordered((wr * 3) as int, 30_000_000, 10);
    }
    let rc: u128 = wr * 3 / 10;
    rc as u64
}

/// The popularity divisor: the log of one plus the reference ceiling.
proof fn lemma_pop_divisor_value()
    ensures
        spec_ln1p(POP_REF_VOTES as int) == 13_862_940 + 951_425 * 693_147 / 1_048_576,
        13_862_940 <= spec_ln1p(POP_REF_VOTES as int) <= 14_556_087,
{
    lemma2_to64();
    lemma2_to64_rest();
    lemma_octave_is(2_000_001, 20);
    lemma_ln_frac_bounds(2_000_001);
    assert(vstd::arithmetic::power2::pow2(20) == 1_048_576);
    assert(20 * (LN2_MICRO as int) == 13_862_940);
}

/// The popularity contribution, bounded by seven.
pub fn pop_component(votes: u64) -> (r: u64)
    ensures
        r as int == spec_pop_component(votes as int),
        r <= 7_000_000,
{
    if votes == 0 {
        return 0;
    }
    let lnv = ln_scaled(votes as u128 + 1);
    let d = ln_scaled(2_000_001);
    proof {
        lemma_pop_divisor_value();
        assert(d as int == spec_ln1p(POP_REF_VOTES as int));
        assert(lnv <= 66 * LN2_MICRO);
        assert((lnv as int) * 2_200_000 <= 45_747_702 * 2_200_000) by {
            lemma_mul_inequality(lnv as int, 45_747_702, 2_200_000);
        }
        assert(951_425 * 693_147 == 659_477_384_475int);
        assert(659_477_384_475int == 628_926 * 1_048_576 + 675_099);
        vstd::arithmetic::div_mod::lemma_fundamental_div_mod_converse(
            659_477_384_475,
            1_048_576,
            628_926,
            675_099,
        );
        assert(951_425 * 693_147 / 1_048_576 == 628_926);
        assert(d == 14_491_866);
        lemma_multiply_divide_le((lnv as int) * 2_200_000, d as int, 7_000_000);
    }
    let num: u128 = (lnv as u128) * 2_200_000;
    let r: u128 = num / (d as u128);
    r as u64
}

/// The recency contribution, split into its nonnegative and nonpositive
/// parts; at most one of the two is nonzero.
pub fn year_component_parts(
    ttype: &Option<String>,
    start: Option<i64>,
    end: Option<i64>,
    now_year: i64,
) -> (r: (u64, u64))
    ensures
        r.0 as int - r.1 as int == spec_year_component(
            spec_recency_year(ttype.deep_view(), start, end, now_year),
        ),
        r.0 <= 150_000,
        r.1 <= 100_000,
        r.0 == 0 || r.1 == 0,
{
    let is_series: bool = match ttype {
        Some(t) => str_eq(t.as_str(), "tvSeries") || str_eq(t.as_str(), "tvMiniSeries") || str_eq(
            t.as_str(),
            "tvEpisode",
        ),
        None => false,
    };
    let ry: i64 = if is_series && end.is_none() {
        now_year
    } else {
        match end {
            Some(y) => y,
            None => match start {
                Some(y) => y,
                None => 0,
            },
        }
    };
    if ry == 0 {
        (0, 0)
    } else if ry >= 2012 {
        let up: u128 = ((ry - 2012) as u128) * 1_000_000 / 90;
        if up > 150_000 {
            (150_000, 0)
        } else {
            (up as u64, 0)
        }
    } else {
        let diff: i128 = 2012i128 - ry as i128;
        let down: u128 = (diff as u128) * 1_000_000 / 90;
        if down > 100_000 {
            (0, 100_000)
        } else {
            (0, down as u64)
        }
    }
}

/// The title-match bonus, split into its nonnegative and nonpositive
/// parts; at most one of the two is nonzero.
pub fn match_bonus_parts(hay: &Vec<char>, needle: &Vec<char>) -> (r: (u64, u64))
    requires
        needle@.len() > 0,
    ensures
        r.0 as int - r.1 as int == spec_match_bonus(hay@, needle@),
        r.0 <= 7_000_000,
        r.1 <= 800_000,
        r.0 == 0 || r.1 == 0,
{
    let short = needle.len() <= 3;
    if seq_eq(hay, needle) {
        if short {
            (7_000_000, 0)
        } else {
            (6_000_000, 0)
        }
    } else if short && contains_word(hay, needle) {
        (1_200_000, 0)
    } else if is_prefix_of(hay, needle) {
        (900_000, 0)
    } else if !short && contains_seq(hay, needle) {
        (400_000, 0)
    } else if short {
        (0, 800_000)
    } else {
        (0, 300_000)
    }
}

/// Scores one title candidate: deterministic in the base score, the
/// candidate's stored fields, the query text and the current year, and
/// free of side effects.
pub fn compute_title_relevance_score(
    base_milli: u64,
    result: &TitleSearchResult,
    query: Option<&str>,
    now_year: i64,
) -> (r: u64)
    ensures
        r as int == spec_title_score(
            base_milli as int,
            result.primary_title@,
            result.title_type.deep_view(),
            result.start_year,
            result.end_year,
            result.average_rating_tenths,
            result.num_votes,
            query.deep_view(),
            now_year,
        ),
{
    let votes: u64 = match result.num_votes {
        Some(v) => if v > 0 {
            v as u64
        } else {
            0
        },
        None => 0,
    };
    let base_a = ln_scaled((base_milli as u128) + 1000);
    let base_b = ln_scaled(1000);
    proof {
        lemma_ln_scaled_mono(1000, base_milli as nat + 1000);
    }
    let base0: u64 = base_a - base_b;
    let mut base_c: u64 = base0;
    let mut bonus_add: u64 = 0;
    let mut bonus_sub: u64 = 0;
    match query {
        None => {},
        Some(q) => {
            let trimmed = trim(q);
            let lowered = lowercase(trimmed);
            let needle = chars_of(lowered.as_str());
            if needle.len() > 0 {
                let hay_string = lowercase(result.primary_title.as_str());
                let hay = chars_of(hay_string.as_str());
                let short = needle.len() <= 3;
                if seq_eq(&hay, &needle) {
                    let floor_v: u64 = if short {
                        4_500_000
                    } else {
                        3_800_000
                    };
                    if base_c < floor_v {
                        base_c = floor_v;
                    }
                }
                let parts = match_bonus_parts(&hay, &needle);
                bonus_add = parts.0;
                bonus_sub = parts.1;
            }
        },
    }
    let rc = rating_component(result.average_rating_tenths, votes);
    let pop = pop_component(votes);
    let yparts = year_component_parts(&result.title_type, result.start_year, result.end_year, now_year);
    let pos: u128 = 1_000_000 + rc as u128 + pop as u128 + bonus_add as u128 + yparts.0 as u128;
    let neg: u128 = bonus_sub as u128 + yparts.1 as u128;
    let combined: u128 = pos - neg;
    let damp: u128 = if votes < 50 {
        200
    } else if votes < 500 {
        500
    } else if votes < 2000 {
        800
    } else {
        1000
    };
    proof {
        assert(combined <= 18_150_000);
        assert((combined as int) * (damp as int) <= (combined as int) * 1000) by (nonlinear_arith)
            requires
                damp <= 1000,
                combined >= 0,
        ;
        assert((combined as int) * 1000 / 1000 == combined as int) by {
            vstd::arithmetic::div_mod::lemma_div_multiples_vanish(
                combined as int,
                1000,
            );
            vstd::arithmetic::mul::lemma_mul_is_commutative(combined as int, 1000);
        }
        lemma_div_is_ordered((combined as int) * (damp as int), (combined as int) * 1000, 1000);
    }
    let damped: u128 = combined * damp / 1000;
    let floored: u128 = if damped < 50_000 {
        50_000
    } else {
        damped
    };
    proof {
        assert(base_c <= 45_747_702);
        assert(floored <= 18_150_000);
        assert((base_c as int) * (floored as int) <= 45_747_702 * 18_150_000) by (nonlinear_arith)
            requires
                base_c <= 45_747_702,
                floored <= 18_150_000,
        ;
        lemma_div_is_ordered(
            (base_c as int) * (floored as int),
            45_747_702int * 18_150_000,
            1_000_000,
        );
    }
    let score: u128 = (base_c as u128) * floored / 1_000_000;
    score as u64
}

/// Comparing two fractions by cross-multiplication carries over to their
/// floors.
proof fn lemma_div_cross(a1: int, b1: int, a2: int, b2: int)
    requires
        a1 >= 0,
        b1 > 0,
        b2 > 0,
        a1 * b2 <= a2 * b1,
    ensures
        a1 / b1 <= a2 / b2,
{
    let q = a1 / b1;
    vstd::arithmetic::div_mod::lemma_fundamental_div_mod(a1, b1);
    vstd::arithmetic::div_mod::lemma_div_pos_is_pos(a1, b1);
    assert(q * b1 <= a1) by (nonlinear_arith)
        requires
            a1 == b1 * q + a1 % b1,
            a1 % b1 >= 0,
    ;
    assert((q * b2) * b1 <= a2 * b1) by (nonlinear_arith)
        requires
            q * b1 <= a1,
            a1 * b2 <= a2 * b1,
            b2 > 0,
    ;
    assert(q * b2 <= a2) by (nonlinear_arith)
        requires
            (q * b2) * b1 <= a2 * b1,
            b1 > 0,
    ;
    assert((q * b2) / b2 == q) by {
        vstd::arithmetic::div_mod::lemma_div_multiples_vanish(q, b2);
        vstd::arithmetic::mul::lemma_mul_is_commutative(q, b2);
    }
    lemma_div_is_ordered(q * b2, a2, b2);
}

/// The shrunk rating always lies between the candidate's rating and the
/// corpus average.
proof fn lemma_wr_bounds(rm: int, votes: int)
    requires
        0 <= rm <= 10_000_000,
        votes >= 0,
    ensures
        spec_wr_micro(rm, votes) >= if rm < GLOBAL_AVG_MICRO as int {
            rm
        } else {
            GLOBAL_AVG_MICRO as int
        },
        spec_wr_micro(rm, votes) <= if rm > GLOBAL_AVG_MICRO as int {
            rm
        } else {
            GLOBAL_AVG_MICRO as int
        },
{
    let c = GLOBAL_AVG_MICRO as int;
    let p = PRIOR_VOTES as int;
    if votes > 0 {
        let lo: int = if rm < c {
            rm
        } else {
            c
        };
        let hi: int = if rm > c {
            rm
        } else {
            c
        };
        let num = votes * rm + p * c;
        let den = votes + p;
        assert(den * lo <= num && num <= den * hi) by (nonlinear_arith)
            requires
                lo <= rm <= hi,
                lo <= c <= hi,
                votes > 0,
                p > 0,
                num == votes * rm + p * c,
                den == votes + p,
        ;
        assert(num / den >= lo) by {
            assert((den * lo) * den <= num * den && den * lo >= 0) by (nonlinear_arith)
                requires
                    den * lo <= num,
                    den > 0,
                    lo >= 0,
            ;
            lemma_div_cross(den * lo, den, num, den);
            assert((den * lo) / den == lo) by {
                vstd::arithmetic::div_mod::lemma_div_multiples_vanish(lo, den);
            }
        }
        vstd::arithmetic::div_mod::lemma_multiply_divide_le(num, den, hi);
    }
}

/// With a rating at or above the corpus average, more votes never lower
/// the shrunk rating.
proof fn lemma_wr_mono_votes(rm: int, v1: int, v2: int)
    requires
        GLOBAL_AVG_MICRO as int <= rm <= 10_000_000,
        0 <= v1 <= v2,
    ensures
        spec_wr_micro(rm, v1) <= spec_wr_micro(rm, v2),
{
    let c = GLOBAL_AVG_MICRO as int;
    let p = PRIOR_VOTES as int;
    if v1 == v2 {
    } else if v1 == 0 {
        lemma_wr_bounds(rm, v2);
    } else {
        let a1 = v1 * rm + p * c;
        let b1 = v1 + p;
        let a2 = v2 * rm + p * c;
        let b2 = v2 + p;
        assert(a1 * b2 <= a2 * b1) by (nonlinear_arith)
            requires
                a1 == v1 * rm + p * c,
                b1 == v1 + p,
                a2 == v2 * rm + p * c,
                b2 == v2 + p,
                0 < v1 <= v2,
                p > 0,
                rm >= c,
                c >= 0,
        ;
        assert(a1 >= 0) by (nonlinear_arith)
            requires
                v1 > 0,
                rm >= 0,
                p > 0,
                c >= 0,
                a1 == v1 * rm + p * c,
        ;
        lemma_div_cross(a1, b1, a2, b2);
    }
}

/// A rating a tenth higher lifts the shrunk rating by a fixed margin once
/// any votes at all are present.
proof fn lemma_wr_gap_rating(rm1: int, rm2: int, v: int)
    requires
        0 <= rm1 <= 10_000_000,
        rm1 + 100_000 <= rm2 <= 10_000_000,
        v >= 1,
    ensures
        spec_wr_micro(rm2, v) >= spec_wr_micro(rm1, v) + 8,
{
    let c = GLOBAL_AVG_MICRO as int;
    let p = PRIOR_VOTES as int;
    let den = v + p;
    let a1 = v * rm1 + p * c;
    let d = v * (rm2 - rm1);
    assert(v * rm2 + p * c == a1 + d) by (nonlinear_arith)
        requires
            a1 == v * rm1 + p * c,
            d == v * (rm2 - rm1),
    ;
    assert(a1 >= 0 && d >= 0) by (nonlinear_arith)
        requires
            v >= 1,
            rm1 >= 0,
            rm2 >= rm1 + 100_000,
            p > 0,
            c > 0,
            a1 == v * rm1 + p * c,
            d == v * (rm2 - rm1),
    ;
    lemma_div_add_ge(a1, d, den);
    assert(d >= 8 * den) by (nonlinear_arith)
        requires
            d == v * (rm2 - rm1),
            rm2 - rm1 >= 100_000,
            v >= 1,
            den == v + p,
            p == 12_000,
    ;
    assert(d / den >= 8) by {
        assert((8 * den) / den == 8) by {
            vstd::arithmetic::div_mod::lemma_div_multiples_vanish(8, den);
            vstd::arithmetic::mul::lemma_mul_is_commutative(8, den);
        }
        lemma_div_is_ordered(8 * den, d, den);
    }
}

/// More votes never lower the popularity contribution.
proof fn lemma_pop_mono(v1: int, v2: int)
    requires
        0 <= v1 <= v2,
    ensures
        spec_pop_component(v1) <= spec_pop_component(v2),
{
    lemma_pop_divisor_value();
    if v1 > 0 {
        crate::numeric::lemma_ln_scaled_mono((v1 + 1) as nat, (v2 + 1) as nat);
        assert(spec_ln1p(v1) * 2_200_000 <= spec_ln1p(v2) * 2_200_000) by {
            lemma_mul_inequality(spec_ln1p(v1), spec_ln1p(v2), 2_200_000);
        }
        lemma_div_is_ordered(
            spec_ln1p(v1) * 2_200_000,
            spec_ln1p(v2) * 2_200_000,
            spec_ln1p(POP_REF_VOTES as int),
        );
    } else if v2 > 0 {
        crate::numeric::lemma_ln_scaled_nonneg((v2 + 1) as nat);
        assert(spec_ln1p(v2) * 2_200_000 >= 0) by (nonlinear_arith)
            requires
                spec_ln1p(v2) >= 0,
        ;
        vstd::arithmetic::div_mod::lemma_div_pos_is_pos(
            spec_ln1p(v2) * 2_200_000,
            spec_ln1p(POP_REF_VOTES as int),
        );
    }
}

/// The popularity contribution never exceeds seven.
proof fn lemma_pop_upper(v: int)
    requires
        0 <= v,
        v + 1 <= 0x2_0000_0000_0000_0000,
    ensures
        spec_pop_component(v) <= 7_000_000,
        spec_pop_component(v) >= 0,
{
    lemma_pop_divisor_value();
    if v > 0 {
        crate::numeric::lemma_ln_scaled_nonneg((v + 1) as nat);
        assert(vstd::arithmetic::power2::pow2(66) == 0x4_0000_0000_0000_0000) by {
            vstd::arithmetic::power2::lemma_pow2_adds(2, 64);
            lemma2_to64();
            lemma2_to64_rest();
        }
        crate::numeric::lemma_ln_scaled_upper((v + 1) as nat, 65);
        assert(spec_ln1p(v) * 2_200_000 <= 45_747_702 * 2_200_000) by {
            lemma_mul_inequality(spec_ln1p(v), 45_747_702, 2_200_000);
        }
        assert(spec_ln1p(v) * 2_200_000 >= 0) by (nonlinear_arith)
            requires
                spec_ln1p(v) >= 0,
        ;
        lemma_multiply_divide_le(
            spec_ln1p(v) * 2_200_000,
            spec_ln1p(POP_REF_VOTES as int),
            7_000_000,
        );
        vstd::arithmetic::div_mod::lemma_div_pos_is_pos(
            spec_ln1p(v) * 2_200_000,
            spec_ln1p(POP_REF_VOTES as int),
        );
    }
}

/// Adding a whole number of divisor steps shifts the floor exactly.
proof fn lemma_div_shift(a: int, k: int, m: int)
    requires
        a >= 0,
        k >= 0,
        m > 0,
    ensures
        (a + m * k) / m == a / m + k,
{
    let q = a / m;
    let r = a % m;
    vstd::arithmetic::div_mod::lemma_fundamental_div_mod(a, m);
    assert(a + m * k == m * (q + k) + r) by (nonlinear_arith)
        requires
            a == m * q + r,
    ;
    vstd::arithmetic::div_mod::lemma_remainder_lower(a, m);
    vstd::arithmetic::div_mod::lemma_remainder_upper(a, m);
    vstd::arithmetic::div_mod::lemma_div_multiples_vanish_fancy(q + k, r, m);
}

/// The recency contribution stays inside its clamp band.
proof fn lemma_year_component_bounds(y: int)
    ensures
        -100_000 <= spec_year_component(y) <= 150_000,
{
    if y != 0 {
        if y >= 2012 {
            vstd::arithmetic::div_mod::lemma_div_pos_is_pos((y - 2012) * 1_000_000, 90);
            assert((y - 2012) * 1_000_000 >= 0) by (nonlinear_arith)
                requires
                    y >= 2012,
            ;
        } else {
            vstd::arithmetic::div_mod::lemma_div_pos_is_pos((2012 - y) * 1_000_000, 90);
            assert((2012 - y) * 1_000_000 >= 0) by (nonlinear_arith)
                requires
                    y < 2012,
            ;
        }
    }
}

/// With strictly more votes, the popularity contribution grows by at
/// least a floor set by the dampening band the smaller count sits in: the
/// logarithm is steep where votes are few and flattens as they grow.
proof fn lemma_pop_band_gap(v1: int, v2: int)
    requires
        0 <= v1 < v2,
    ensures
        spec_pop_component(v2) >= spec_pop_component(v1),
        v1 < 50 ==> spec_pop_component(v2) >= spec_pop_component(v1) + 3288,
        v1 < 500 ==> spec_pop_component(v2) >= spec_pop_component(v1) + 410,
        v1 < 2000 ==> spec_pop_component(v2) >= spec_pop_component(v1) + 102,
{
    lemma_pop_divisor_value();
    let d = spec_ln1p(POP_REF_VOTES as int);
    let k = crate::numeric::spec_octave((v1 + 1) as nat);
    let p = vstd::arithmetic::power2::pow2(k) as int;
    let l = LN2_MICRO as int;
    crate::numeric::lemma_octave_bounds((v1 + 1) as nat);
    crate::numeric::lemma_ln_step((v1 + 1) as nat);
    crate::numeric::lemma_ln_scaled_mono((v1 + 2) as nat, (v2 + 1) as nat);
    vstd::arithmetic::power2::lemma_pow2_pos(k);
    assert(spec_ln1p(v2) >= spec_ln1p(v1) + l / p);
    crate::numeric::lemma_ln_scaled_nonneg((v1 + 1) as nat);
    vstd::arithmetic::div_mod::lemma_div_pos_is_pos(l, p);
    let a = spec_ln1p(v1) * 2_200_000;
    let b = (l / p) * 2_200_000;
    assert(a >= 0 && b >= 0) by (nonlinear_arith)
        requires
            spec_ln1p(v1) >= 0,
            l / p >= 0,
            a == spec_ln1p(v1) * 2_200_000,
            b == (l / p) * 2_200_000,
    ;
    assert(spec_ln1p(v2) * 2_200_000 >= a + b) by (nonlinear_arith)
        requires
            spec_ln1p(v2) >= spec_ln1p(v1) + l / p,
            a == spec_ln1p(v1) * 2_200_000,
            b == (l / p) * 2_200_000,
    ;
    lemma_div_is_ordered(a + b, spec_ln1p(v2) * 2_200_000, d);
    lemma_div_add_ge(a, b, d);
    if v1 == 0 {
        lemma2_to64();
        crate::numeric::lemma_octave_is(1, 0);
        assert(spec_ln1p(0) == 0);
        vstd::arithmetic::div_mod::lemma_div_of0(d);
    }
    assert(spec_pop_component(v2) >= spec_pop_component(v1) + b / d);
    // The steepness floor of each band, from the octave the next vote
    // count sits in.
    if v1 < 2000 {
        let cap: int = if v1 < 50 {
            32
        } else if v1 < 500 {
            256
        } else {
            1024
        };
        let cap_k: nat = if v1 < 50 {
            5
        } else if v1 < 500 {
            8
        } else {
            10
        };
        lemma2_to64();
        if k > cap_k {
            if cap_k + 1 < k {
                vstd::arithmetic::power2::lemma_pow2_strictly_increases(cap_k + 1, k);
            }
            assert(vstd::arithmetic::power2::pow2(cap_k + 1) <= vstd::arithmetic::power2::pow2(k));
            assert(false);
        }
        if k < cap_k {
            vstd::arithmetic::power2::lemma_pow2_strictly_increases(k, cap_k);
        }
        assert(p <= cap);
        vstd::arithmetic::div_mod::lemma_div_is_ordered_by_denominator(l, p, cap);
        let step: int = if v1 < 50 {
            21_660
        } else if v1 < 500 {
            2_707
        } else {
            676
        };
        assert(l / cap == step);
        assert(b >= step * 2_200_000) by (nonlinear_arith)
            requires
                l / p >= step,
                b == (l / p) * 2_200_000,
                step > 0,
        ;
        lemma_div_is_ordered(step * 2_200_000, b, d);
        if v1 < 50 {
            assert(21_660 * 2_200_000 / 14_491_866 == 3288) by {
                vstd::arithmetic::div_mod::lemma_fundamental_div_mod_converse(
                    47_652_000_000,
                    14_491_866,
                    3288,
                    2_744_592,
                );
            }
        } else if v1 < 500 {
            assert(2_707 * 2_200_000 / 14_491_866 == 410) by {
                vstd::arithmetic::div_mod::lemma_fundamental_div_mod_converse(
                    5_955_400_000,
                    14_491_866,
                    410,
                    13_734_940,
                );
            }
        } else {
            assert(676 * 2_200_000 / 14_491_866 == 102) by {
                vstd::arithmetic::div_mod::lemma_fundamental_div_mod_converse(
                    1_487_200_000,
                    14_491_866,
                    102,
                    9_029_668,
                );
            }
        }
    }
}

/// LAW (quality beats parity): of two candidates alike in name, category,
/// periods, query and base signal, the one with the strictly higher
/// rating and the strictly higher vote count scores strictly higher —
/// stated where the formula grants it: both ratings at or above the
/// corpus-average constant, and a base signal of at least one.
pub proof fn lemma_quality_monotonicity(
    base_milli: int,
    name: Seq<char>,
    t: Option<Seq<char>>,
    start: Option<i64>,
    end: Option<i64>,
    r1: i64,
    r2: i64,
    v1: i64,
    v2: i64,
    q: Option<Seq<char>>,
    now_year: i64,
)
    requires
        1000 <= base_milli,
        67 <= r1 < r2 <= 100,
        0 <= v1 < v2,
    ensures
        spec_title_score(base_milli, name, t, start, end, Some(r1), Some(v1), q, now_year)
            < spec_title_score(base_milli, name, t, start, end, Some(r2), Some(v2), q, now_year),
{
    let c = GLOBAL_AVG_MICRO as int;
    let rm1 = spec_rating_micro(Some(r1));
    let rm2 = spec_rating_micro(Some(r2));
    assert(rm1 == r1 * 100_000 && rm2 == r2 * 100_000);
    assert(c <= rm1 && rm1 + 100_000 <= rm2 <= 10_000_000) by (nonlinear_arith)
        requires
            rm1 == r1 * 100_000,
            rm2 == r2 * 100_000,
            67 <= r1 < r2 <= 100,
            c == 6_700_000,
    ;
    let wr1 = spec_wr_micro(rm1, v1 as int);
    let wr2 = spec_wr_micro(rm2, v2 as int);
    lemma_wr_mono_votes(rm1, v1 as int, v2 as int);
    lemma_wr_gap_rating(rm1, rm2, v2 as int);
    assert(wr2 >= wr1 + 8);
    lemma_wr_bounds(rm1, v1 as int);
    assert(wr1 >= 0);
    let rc1 = spec_rating_component(Some(r1), v1 as int);
    let rc2 = spec_rating_component(Some(r2), v2 as int);
    assert(rc2 >= rc1 + 2) by {
        assert(wr1 * 3 + 24 <= wr2 * 3) by (nonlinear_arith)
            requires
                wr2 >= wr1 + 8,
        ;
        lemma_div_is_ordered(wr1 * 3 + 24, wr2 * 3, 10);
        lemma_div_shift(wr1 * 3 + 4, 2, 10);
        assert(wr1 * 3 >= 0) by (nonlinear_arith)
            requires
                wr1 >= 0,
        ;
        lemma_div_is_ordered(wr1 * 3, wr1 * 3 + 4, 10);
        assert((wr1 * 3 + 24) / 10 >= wr1 * 3 / 10 + 2);
    }
    lemma_pop_band_gap(v1 as int, v2 as int);
    let pop1 = spec_pop_component(v1 as int);
    let pop2 = spec_pop_component(v2 as int);
    let yc = spec_year_component(spec_recency_year(t, start, end, now_year));
    lemma_year_component_bounds(spec_recency_year(t, start, end, now_year));
    let needle = spec_needle_of(q);
    let bonus: int = match needle {
        None => 0,
        Some(n) => spec_match_bonus(lower_of(name), n),
    };
    assert(-800_000 <= bonus <= 7_000_000);
    // With the rating at or above the corpus average, the quality term
    // alone keeps the combined multiplier well clear of its floor.
    assert(rc1 >= 2_010_000) by {
        assert(wr1 >= c);
        assert(wr1 * 3 >= 20_100_000) by (nonlinear_arith)
            requires
                wr1 >= 6_700_000,
        ;
        lemma_div_is_ordered(20_100_000, wr1 * 3, 10);
    }
    let c1 = spec_combined(name, t, start, end, Some(r1), v1 as int, needle, now_year);
    let c2 = spec_combined(name, t, start, end, Some(r2), v2 as int, needle, now_year);
    assert(pop1 >= 0 && pop2 >= pop1) by {
        if v1 as int > 0 {
            lemma_pop_divisor_value();
            crate::numeric::lemma_ln_scaled_nonneg((v1 + 1) as nat);
            assert(spec_ln1p(v1 as int) * 2_200_000 >= 0) by (nonlinear_arith)
                requires
                    spec_ln1p(v1 as int) >= 0,
            ;
            vstd::arithmetic::div_mod::lemma_div_pos_is_pos(
                spec_ln1p(v1 as int) * 2_200_000,
                spec_ln1p(POP_REF_VOTES as int),
            );
        }
    }
    assert(c1 >= 2_110_000);
    // The combined multiplier grows by the quality step plus the band's
    // popularity floor.
    let gap_min: int = if v1 < 50 {
        3290
    } else if v1 < 500 {
        412
    } else if v1 < 2000 {
        104
    } else {
        2
    };
    assert(c2 >= c1 + gap_min);
    let d1 = spec_damp_permille(v1 as int);
    let d2 = spec_damp_permille(v2 as int);
    assert(200 <= d1 <= d2 <= 1000);
    assert((gap_min * d1) / 1000 >= 2);
    let f1 = c1 * d1 / 1000;
    let f2 = c2 * d2 / 1000;
    assert(f2 >= f1 + 2) by {
        assert(c2 * d2 >= c2 * d1) by (nonlinear_arith)
            requires
                d2 >= d1,
                c2 >= 0,
        ;
        lemma_div_is_ordered(c2 * d1, c2 * d2, 1000);
        assert(c2 * d1 == c1 * d1 + (c2 - c1) * d1) by (nonlinear_arith);
        assert(c1 * d1 >= 0 && (c2 - c1) * d1 >= 0) by (nonlinear_arith)
            requires
                c1 >= 0,
                c2 >= c1,
                d1 > 0,
        ;
        lemma_div_add_ge(c1 * d1, (c2 - c1) * d1, 1000);
        assert((c2 - c1) * d1 >= gap_min * d1) by (nonlinear_arith)
            requires
                c2 - c1 >= gap_min,
                d1 > 0,
                gap_min > 0,
        ;
        lemma_div_is_ordered(gap_min * d1, (c2 - c1) * d1, 1000);
    }
    assert(f1 >= 422_000) by {
        assert(c1 * d1 >= 2_110_000 * 200) by (nonlinear_arith)
            requires
                c1 >= 2_110_000,
                d1 >= 200,
        ;
        lemma_div_is_ordered(2_110_000int * 200, c1 * d1, 1000);
    }
    let base0 = spec_base_compressed(base_milli);
    lemma2_to64();
    crate::numeric::lemma_ln_scaled_mono(2000, (base_milli + 1000) as nat);
    crate::numeric::lemma_octave_is(2000, 10);
    crate::numeric::lemma_octave_is(1000, 9);
    assert(spec_ln_scaled(2000) == 10 * 693_147 + 976 * 693_147 / 1024);
    assert(976 * 693_147 / 1024 == 660_655) by {
        vstd::arithmetic::div_mod::lemma_fundamental_div_mod_converse(
            676_511_472,
            1024,
            660_655,
            752,
        );
    }
    assert(spec_ln_scaled(1000) == 9 * 693_147 + 488 * 693_147 / 512);
    assert(488 * 693_147 / 512 == 660_655) by {
        vstd::arithmetic::div_mod::lemma_fundamental_div_mod_converse(
            338_255_736,
            512,
            660_655,
            376,
        );
    }
    assert(base0 >= 693_147);
    let base_c: int = match needle {
        None => base0,
        Some(n) => spec_base_with_exact(base0, lower_of(name), n),
    };
    assert(base_c >= base0);
    let s1 = spec_title_score(base_milli, name, t, start, end, Some(r1), Some(v1), q, now_year);
    let s2 = spec_title_score(base_milli, name, t, start, end, Some(r2), Some(v2), q, now_year);
    assert(s1 == base_c * f1 / 1_000_000 && s2 == base_c * f2 / 1_000_000);
    assert(base_c * f1 + base_c * 2 <= base_c * f2) by (nonlinear_arith)
        requires
            f2 >= f1 + 2,
            base_c > 0,
    ;
    assert(base_c * f1 >= 0) by (nonlinear_arith)
        requires
            base_c >= 0,
            f1 >= 0,
    ;
    lemma_div_add_ge(base_c * f1, base_c * 2, 1_000_000);
    lemma_div_is_ordered(base_c * f1 + base_c * 2, base_c * f2, 1_000_000);
    assert(base_c * 2 / 1_000_000 >= 1) by {
        assert(base_c * 2 >= 1_386_294) by (nonlinear_arith)
            requires
                base_c >= 693_147,
        ;
        lemma_div_is_ordered(1_000_000, base_c * 2, 1_000_000);
        vstd::arithmetic::div_mod::lemma_div_by_self(1_000_000);
    }
}

/// LAW (cold-start dampening): of two candidates alike in everything but
/// their vote counts — rating included, present or not — the one with
/// fewer votes than the bottom dampening threshold scores strictly below
/// the one at or above the top threshold, at any equal, non-zero base
/// signal.
pub proof fn lemma_cold_start_dampening(
    base_milli: int,
    name: Seq<char>,
    t: Option<Seq<char>>,
    start: Option<i64>,
    end: Option<i64>,
    rating: Option<i64>,
    v_low: i64,
    v_high: i64,
    q: Option<Seq<char>>,
    now_year: i64,
)
    requires
        1 <= base_milli,
        0 <= v_low < 50,
        2000 <= v_high,
    ensures
        spec_title_score(base_milli, name, t, start, end, rating, Some(v_low), q, now_year)
            < spec_title_score(base_milli, name, t, start, end, rating, Some(v_high), q, now_year),
{
    let c = GLOBAL_AVG_MICRO as int;
    let rm = spec_rating_micro(rating);
    assert(0 <= rm <= 10_000_000) by (nonlinear_arith)
        requires
            rm == (match rating {
                None => 50int,
                Some(v) => if v < 0 {
                    0int
                } else if v > 100 {
                    100int
                } else {
                    v as int
                },
            }) * 100_000,
    ;
    let wr_l = spec_wr_micro(rm, v_low as int);
    let wr_h = spec_wr_micro(rm, v_high as int);
    lemma_wr_bounds(rm, v_low as int);
    lemma_wr_bounds(rm, v_high as int);
    assert(wr_l <= wr_h + 6_700_000);
    assert(wr_l >= 0 && wr_h >= 0);
    let rc_l = spec_rating_component(rating, v_low as int);
    let rc_h = spec_rating_component(rating, v_high as int);
    assert(rc_l <= rc_h + 2_010_000) by {
        assert(wr_l * 3 <= wr_h * 3 + 10 * 2_010_000) by (nonlinear_arith)
            requires
                wr_l <= wr_h + 6_700_000,
        ;
        assert(wr_h * 3 >= 0) by (nonlinear_arith)
            requires
                wr_h >= 0,
        ;
        lemma_div_is_ordered(wr_l * 3, wr_h * 3 + 10 * 2_010_000, 10);
        lemma_div_shift(wr_h * 3, 2_010_000, 10);
    }
    assert(rc_h >= 0 && rc_l >= 0) by {
        assert(wr_h * 3 >= 0 && wr_l * 3 >= 0) by (nonlinear_arith)
            requires
                wr_h >= 0,
                wr_l >= 0,
        ;
        vstd::arithmetic::div_mod::lemma_div_pos_is_pos(wr_h * 3, 10);
        vstd::arithmetic::div_mod::lemma_div_pos_is_pos(wr_l * 3, 10);
    }
    let pop_l = spec_pop_component(v_low as int);
    let pop_h = spec_pop_component(v_high as int);
    lemma_pop_mono(v_low as int, 49);
    lemma_pop_mono(2000, v_high as int);
    lemma_pop_upper(v_low as int);
    // The two reference points of the popularity scale, computed exactly.
    lemma_pop_divisor_value();
    assert(spec_ln1p(POP_REF_VOTES as int) == 14_491_866);
    lemma2_to64();
    crate::numeric::lemma_octave_is(50, 5);
    crate::numeric::lemma_octave_is(2001, 10);
    assert(spec_ln1p(49) == 5 * 693_147 + 18 * 693_147 / 32);
    assert(18 * 693_147 / 32 == 389_895) by {
        vstd::arithmetic::div_mod::lemma_fundamental_div_mod_converse(12_476_646, 32, 389_895, 6);
    }
    assert(spec_ln1p(49) == 3_855_630);
    assert(spec_ln1p(2000) == 10 * 693_147 + 977 * 693_147 / 1024);
    assert(977 * 693_147 / 1024 == 661_332) by {
        vstd::arithmetic::div_mod::lemma_fundamental_div_mod_converse(
            677_204_619,
            1024,
            661_332,
            651,
        );
    }
    assert(spec_ln1p(2000) == 7_592_802);
    assert(spec_pop_component(49) == 3_855_630 * 2_200_000 / 14_491_866);
    assert(3_855_630 * 2_200_000 / 14_491_866 == 585_320) by {
        vstd::arithmetic::div_mod::lemma_fundamental_div_mod_converse(
            8_482_386_000_000,
            14_491_866,
            585_320,
            6_992_880,
        );
    }
    assert(spec_pop_component(2000) == 7_592_802 * 2_200_000 / 14_491_866);
    assert(7_592_802 * 2_200_000 / 14_491_866 == 1_152_657) by {
        vstd::arithmetic::div_mod::lemma_fundamental_div_mod_converse(
            16_704_164_400_000,
            14_491_866,
            1_152_657,
            13_612_038,
        );
    }
    assert(pop_l <= 585_320);
    assert(pop_h >= 1_152_657);
    let yc = spec_year_component(spec_recency_year(t, start, end, now_year));
    lemma_year_component_bounds(spec_recency_year(t, start, end, now_year));
    let needle = spec_needle_of(q);
    let bonus: int = match needle {
        None => 0,
        Some(n) => spec_match_bonus(lower_of(name), n),
    };
    assert(-800_000 <= bonus <= 7_000_000);
    let c_l = spec_combined(name, t, start, end, rating, v_low as int, needle, now_year);
    let c_h = spec_combined(name, t, start, end, rating, v_high as int, needle, now_year);
    assert(c_l >= 100_000);
    assert(5 * c_h >= c_l + 3_500_000);
    assert(spec_damp_permille(v_low as int) == 200 && spec_damp_permille(v_high as int) == 1000);
    let f_l = c_l * 200 / 1000;
    let f_h = c_h * 1000 / 1000;
    assert(f_h == c_h) by {
        vstd::arithmetic::div_mod::lemma_div_multiples_vanish(c_h, 1000);
        vstd::arithmetic::mul::lemma_mul_is_commutative(c_h, 1000);
    }
    assert(f_l == c_l / 5) by {
        assert(c_l * 200 == 200 * c_l);
        vstd::arithmetic::div_mod::lemma_div_denominator(200 * c_l, 200, 5);
        vstd::arithmetic::div_mod::lemma_div_multiples_vanish(c_l, 200);
    }
    assert(f_h >= f_l + 650_000) by {
        assert(c_h >= (c_l + 3_500_000) / 5) by {
            lemma_div_is_ordered(c_l + 3_500_000, 5 * c_h, 5);
            vstd::arithmetic::div_mod::lemma_div_multiples_vanish(c_h, 5);
        }
        lemma_div_shift(c_l, 700_000, 5);
    }
    let fl_l: int = if f_l < 50_000 {
        50_000
    } else {
        f_l
    };
    let fl_h: int = if f_h < 50_000 {
        50_000
    } else {
        f_h
    };
    assert(f_l >= 0) by {
        vstd::arithmetic::div_mod::lemma_div_pos_is_pos(c_l * 200, 1000);
        assert(c_l * 200 >= 0) by (nonlinear_arith)
            requires
                c_l >= 0,
        ;
    }
    assert(fl_h >= fl_l + 600_000);
    let base0 = spec_base_compressed(base_milli);
    crate::numeric::lemma_ln_scaled_mono(1001, (base_milli + 1000) as nat);
    crate::numeric::lemma_octave_is(1001, 9);
    crate::numeric::lemma_octave_is(1000, 9);
    assert(spec_ln_scaled(1001) == 9 * 693_147 + 489 * 693_147 / 512);
    assert(489 * 693_147 / 512 == 662_009) by {
        vstd::arithmetic::div_mod::lemma_fundamental_div_mod_converse(
            338_948_883,
            512,
            662_009,
            275,
        );
    }
    assert(spec_ln_scaled(1000) == 9 * 693_147 + 488 * 693_147 / 512);
    assert(488 * 693_147 / 512 == 660_655) by {
        vstd::arithmetic::div_mod::lemma_fundamental_div_mod_converse(
            338_255_736,
            512,
            660_655,
            376,
        );
    }
    assert(base0 >= 1354);
    let base_c: int = match needle {
        None => base0,
        Some(n) => spec_base_with_exact(base0, lower_of(name), n),
    };
    assert(base_c >= base0);
    let s_l = spec_title_score(base_milli, name, t, start, end, rating, Some(v_low), q, now_year);
    let s_h = spec_title_score(base_milli, name, t, start, end, rating, Some(v_high), q, now_year);
    assert(s_l == base_c * fl_l / 1_000_000 && s_h == base_c * fl_h / 1_000_000);
    assert(base_c * fl_l + base_c * 600_000 <= base_c * fl_h) by (nonlinear_arith)
        requires
            fl_h >= fl_l + 600_000,
            base_c > 0,
    ;
    assert(base_c * fl_l >= 0) by (nonlinear_arith)
        requires
            base_c >= 0,
            fl_l >= 0,
    ;
    lemma_div_add_ge(base_c * fl_l, base_c * 600_000, 1_000_000);
    lemma_div_is_ordered(base_c * fl_l + base_c * 600_000, base_c * fl_h, 1_000_000);
    assert(base_c * 600_000 / 1_000_000 >= 1) by {
        assert(base_c * 600_000 >= 812_400_000) by (nonlinear_arith)
            requires
                base_c >= 1354,
        ;
        lemma_div_is_ordered(1_000_000, base_c * 600_000, 1_000_000);
        vstd::arithmetic::div_mod::lemma_div_by_self(1_000_000);
    }
}

} // verus!
