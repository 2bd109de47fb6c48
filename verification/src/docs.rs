//! Document builders: one validated record plus its cross-reference
//! lookups become exactly one denormalized document.  Enrichment is
//! best-effort — a missing rating, alias list or cast list never blocks the
//! document — and the recall-only alias list is deduplicated per document,
//! case-sensitively.

use vstd::prelude::*;
use crate::records::{NameRecord, TitleRecord};
use crate::text::{str_eq, trim, trim_of};
use crate::types::{NameSearchResult, TitleSearchResult};
use crate::xref::{clone_strings, contains_string};

verus! {

/// One denormalized title document, as the engine stores it.
pub struct TitleDoc {
    pub tconst: String,
    pub title_type: String,
    pub primary_title: String,
    pub original_title: Option<String>,
    pub start_year: Option<i64>,
    pub end_year: Option<i64>,
    pub genres: Vec<String>,
    pub average_rating_tenths: Option<i64>,
    pub num_votes: Option<i64>,
    pub search_titles: Vec<String>,
}

/// The mathematical shape of one title document.
pub struct TitleDocView {
    pub tconst: Seq<char>,
    pub title_type: Seq<char>,
    pub primary_title: Seq<char>,
    pub original_title: Option<Seq<char>>,
    pub start_year: Option<i64>,
    pub end_year: Option<i64>,
    pub genres: Seq<Seq<char>>,
    pub average_rating_tenths: Option<i64>,
    pub num_votes: Option<i64>,
    pub search_titles: Seq<Seq<char>>,
}

impl View for TitleDoc {
    type V = TitleDocView;

    open spec fn view(&self) -> TitleDocView {
        TitleDocView {
            tconst: self.tconst@,
            title_type: self.title_type@,
            primary_title: self.primary_title@,
            original_title: self.original_title.deep_view(),
            start_year: self.start_year,
            end_year: self.end_year,
            genres: self.genres.deep_view(),
            average_rating_tenths: self.average_rating_tenths,
            num_votes: self.num_votes,
            search_titles: self.search_titles.deep_view(),
        }
    }
}

impl DeepView for TitleDoc {
    type V = TitleDocView;

    open spec fn deep_view(&self) -> TitleDocView {
        self.view()
    }
}

/// Each of `xs` joins `acc` unless an equal string is already there; what
/// the alias list holds after folding the alternate titles in.
pub open spec fn spec_dedup_into(acc: Seq<Seq<char>>, xs: Seq<Seq<char>>) -> Seq<Seq<char>>
    decreases xs.len(),
{
    if xs.len() == 0 {
        acc
    } else {
        let acc2: Seq<Seq<char>> = if acc.contains(xs.first()) {
            acc
        } else {
            acc.push(xs.first())
        };
        spec_dedup_into(acc2, xs.drop_first())
    }
}

/// The alias list of one title document: the primary name; the original
/// name when present and distinct; each alternate title not already
/// listed; and the cast names, as resolved.
pub open spec fn spec_search_titles(
    primary: Seq<char>,
    original: Option<Seq<char>>,
    akas: Seq<Seq<char>>,
    principals: Seq<Seq<char>>,
) -> Seq<Seq<char>> {
    let base: Seq<Seq<char>> = match original {
        Some(o) => if o == primary {
            seq![primary]
        } else {
            seq![primary, o]
        },
        None => seq![primary],
    };
    spec_dedup_into(base, akas) + principals
}

/// Folds `xs` into `acc`, keeping each piece at most once.
#[verifier::loop_isolation(false)]
fn dedup_into(acc: &mut Vec<String>, xs: &Vec<String>)
    ensures
        final(acc).deep_view() == spec_dedup_into(old(acc).deep_view(), xs.deep_view()),
{
    let mut i: usize = 0;
    proof {
        assert(xs.deep_view().skip(0) =~= xs.deep_view());
    }
    while i < xs.len()
        invariant
            0 <= i <= xs@.len(),
            spec_dedup_into(old(acc).deep_view(), xs.deep_view()) == spec_dedup_into(
                acc.deep_view(),
                xs.deep_view().skip(i as int),
            ),
        decreases xs@.len() - i,
    {
        let ghost pre = acc.deep_view();
        let ghost rest = xs.deep_view().skip(i as int);
        proof {
            assert(rest.first() == xs.deep_view()[i as int]);
            assert(rest.drop_first() =~= xs.deep_view().skip(i + 1));
        }
        let x: &String = &xs[i];
        if !contains_string(acc, x.as_str()) {
            acc.push(x.clone());
            proof {
                assert(acc.deep_view() =~= pre.push(x@));
            }
        }
        i = i + 1;
    }
    proof {
        assert(xs.deep_view().skip(xs@.len() as int) =~= Seq::<Seq<char>>::empty());
    }
}

/// Builds one title document from a validated record and its lookups.
/// Every stored field comes straight from its source: numeric fields are
/// present exactly when the lookup had them, and the alias list is the
/// deduplicated union the recall design asks for.
#[verifier::loop_isolation(false)]
pub fn build_title_doc(
    rec: TitleRecord,
    rating: Option<(i64, i64)>,
    akas: Option<&Vec<String>>,
    principals: Option<&Vec<String>>,
) -> (r: TitleDoc)
    ensures
        r.tconst == rec.tconst,
        r.title_type == rec.title_type,
        r.primary_title == rec.primary_title,
        r.original_title == rec.original_title,
        r.start_year == rec.start_year,
        r.end_year == rec.end_year,
        r.genres == rec.genres,
        r.average_rating_tenths == (match rating {
            Some(rv) => Some(rv.0),
            None => None,
        }),
        r.num_votes == (match rating {
            Some(rv) => Some(rv.1),
            None => None,
        }),
        r.search_titles.deep_view() == spec_search_titles(
            rec.primary_title@,
            rec.original_title.deep_view(),
            match akas {
                Some(a) => a.deep_view(),
                None => Seq::<Seq<char>>::empty(),
            },
            match principals {
                Some(p) => p.deep_view(),
                None => Seq::<Seq<char>>::empty(),
            },
        ),
{
    let mut search: Vec<String> = Vec::new();
    search.push(rec.primary_title.clone());
    match &rec.original_title {
        Some(o) => {
            if !str_eq(o.as_str(), rec.primary_title.as_str()) {
                search.push(o.clone());
                proof {
                    assert(search.deep_view() =~= seq![rec.primary_title@, o@]);
                }
            } else {
                proof {
                    assert(search.deep_view() =~= seq![rec.primary_title@]);
                }
            }
        },
        None => {
            proof {
                assert(search.deep_view() =~= seq![rec.primary_title@]);
            }
        },
    }
    match akas {
        Some(a) => {
            dedup_into(&mut search, a);
        },
        None => {},
    }
    match principals {
        Some(p) => {
            let mut i: usize = 0;
            let ghost before = search.deep_view();
            while i < p.len()
                invariant
                    0 <= i <= p@.len(),
                    search.deep_view() =~= before + p.deep_view().take(i as int),
                decreases p@.len() - i,
            {
                let ghost pre = search.deep_view();
                let nm: &String = &p[i];
                search.push(nm.clone());
                proof {
                    assert(search.deep_view() =~= pre.push(nm@));
                    assert(p.deep_view().take(i + 1) =~= p.deep_view().take(i as int).push(
                        p.deep_view()[i as int],
                    ));
                }
                i = i + 1;
            }
            proof {
                assert(p.deep_view().take(p@.len() as int) =~= p.deep_view());
            }
        },
        None => {
            proof {
                assert(search.deep_view() + Seq::<Seq<char>>::empty() =~= search.deep_view());
            }
        },
    }
    let (rating_tenths, votes): (Option<i64>, Option<i64>) = match rating {
        Some(rv) => (Some(rv.0), Some(rv.1)),
        None => (None, None),
    };
    TitleDoc {
        tconst: rec.tconst,
        title_type: rec.title_type,
        primary_title: rec.primary_title,
        original_title: rec.original_title,
        start_year: rec.start_year,
        end_year: rec.end_year,
        genres: rec.genres,
        average_rating_tenths: rating_tenths,
        num_votes: votes,
        search_titles: search,
    }
}

/// Assembles the served form of one title document.  Every populated field
/// is reproduced exactly; the genre list is served only when non-empty,
/// and the score and sort value are left for the caller.
pub fn document_to_title_result(doc: &TitleDoc) -> (r: TitleSearchResult)
    ensures
        r.tconst == doc.tconst,
        r.primary_title == doc.primary_title,
        r.original_title == doc.original_title,
        r.title_type matches Some(t) && t == doc.title_type,
        r.start_year == doc.start_year,
        r.end_year == doc.end_year,
        (match r.genres {
            Some(g) => doc.genres@.len() > 0 && g@ == doc.genres@,
            None => doc.genres@.len() == 0,
        }),
        r.average_rating_tenths == doc.average_rating_tenths,
        r.num_votes == doc.num_votes,
        r.score_micro is None,
        r.sort_value is None,
{
    let genres: Option<Vec<String>> = if doc.genres.len() == 0 {
        None
    } else {
        Some(clone_strings(&doc.genres))
    };
    TitleSearchResult {
        tconst: doc.tconst.clone(),
        primary_title: doc.primary_title.clone(),
        original_title: match &doc.original_title {
            Some(o) => Some(o.clone()),
            None => None,
        },
        title_type: Some(doc.title_type.clone()),
        start_year: doc.start_year,
        end_year: doc.end_year,
        genres,
        average_rating_tenths: doc.average_rating_tenths,
        num_votes: doc.num_votes,
        score_micro: None,
        sort_value: None,
    }
}

/// The pieces of a comma-joined column, trimmed, empty pieces dropped.
pub open spec fn spec_csv_items(pieces: Seq<Seq<char>>) -> Seq<Seq<char>>
    decreases pieces.len(),
{
    if pieces.len() == 0 {
        Seq::<Seq<char>>::empty()
    } else {
        spec_csv_items(pieces.drop_last()) + if trim_of(pieces.last()).len() > 0 {
            seq![trim_of(pieces.last())]
        } else {
            Seq::<Seq<char>>::empty()
        }
    }
}

/// Splits a comma-joined storage column into its served list.
#[verifier::loop_isolation(false)]
pub fn split_csv_list(s: &str) -> (r: Vec<String>)
    ensures
        r.deep_view() == spec_csv_items(crate::rows::spec_split(s@, ',')),
{
    let pieces = crate::rows::split_on(s, ',');
    let mut out: Vec<String> = Vec::new();
    let mut i: usize = 0;
    proof {
        assert(pieces.deep_view().take(0) =~= Seq::<Seq<char>>::empty());
        assert(out.deep_view() =~= spec_csv_items(pieces.deep_view().take(0)));
    }
    while i < pieces.len()
        invariant
            0 <= i <= pieces@.len(),
            out.deep_view() == spec_csv_items(pieces.deep_view().take(i as int)),
        decreases pieces@.len() - i,
    {
        proof {
            assert(pieces.deep_view().take(i + 1).drop_last() =~= pieces.deep_view().take(
                i as int,
            ));
            assert(pieces.deep_view().take(i + 1).last() == pieces.deep_view()[i as int]);
        }
        let ghost pre = out.deep_view();
        let piece: &String = &pieces[i];
        let t = trim(piece.as_str());
        if t.unicode_len() > 0 {
            out.push(String::from_str(t));
            proof {
                assert(out.deep_view() =~= pre.push(trim_of(pieces.deep_view()[i as int])));
            }
        } else {
            proof {
                assert(out.deep_view() + Seq::<Seq<char>>::empty() =~= out.deep_view());
            }
        }
        i = i + 1;
    }
    proof {
        assert(pieces.deep_view().take(pieces@.len() as int) =~= pieces.deep_view());
    }
    out
}

/// Assembles the served form of one person document.  The comma-joined
/// storage columns are split into lists on the way out; a column that was
/// never stored is omitted rather than served empty.
pub fn document_to_name_result(doc: &NameRecord) -> (r: NameSearchResult)
    ensures
        r.nconst == doc.nconst,
        r.primary_name == doc.primary_name,
        r.birth_year == doc.birth_year,
        r.death_year == doc.death_year,
        (match r.primary_profession {
            Some(p) => doc.primary_profession@.len() > 0 && p.deep_view() == spec_csv_items(
                crate::rows::spec_split(doc.primary_profession@, ','),
            ),
            None => doc.primary_profession@.len() == 0,
        }),
        (match r.known_for_titles {
            Some(k) => doc.known_for_titles@.len() > 0 && k.deep_view() == spec_csv_items(
                crate::rows::spec_split(doc.known_for_titles@, ','),
            ),
            None => doc.known_for_titles@.len() == 0,
        }),
        r.score_micro is None,
{
    let professions: Option<Vec<String>> = if doc.primary_profession.as_str().unicode_len() == 0 {
        None
    } else {
        Some(split_csv_list(doc.primary_profession.as_str()))
    };
    let known_for: Option<Vec<String>> = if doc.known_for_titles.as_str().unicode_len() == 0 {
        None
    } else {
        Some(split_csv_list(doc.known_for_titles.as_str()))
    };
    NameSearchResult {
        nconst: doc.nconst.clone(),
        primary_name: doc.primary_name.clone(),
        birth_year: doc.birth_year,
        death_year: doc.death_year,
        primary_profession: professions,
        known_for_titles: known_for,
        score_micro: None,
    }
}

} // verus!
