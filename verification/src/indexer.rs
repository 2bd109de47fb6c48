//! The index adapter: the two schemas, their field handles, the build
//! pass that turns source rows into documents and feeds them to the
//! engine, and the prepared handles queries run against.  The document
//! store itself — what each document holds, and the key table that serves
//! exact-id lookups — lives here as verified data; the engine only serves
//! recall.

use vstd::prelude::*;
use crate::docs::{build_title_doc, spec_search_titles, TitleDoc, TitleDocView};
use crate::engine;
use crate::records::{
    parse_name_record, parse_title_record, spec_col, spec_keep_present, spec_name_row_ok,
    spec_opt_col, spec_opt_col_i64, spec_title_row_ok, NameRecord, NameRecordView,
};
use crate::rows::{spec_split, split_on};
use crate::strmap::StrMap;

verus! {

/// Field handles of the title schema.
pub struct TitleFields {
    pub tconst: tantivy::schema::Field,
    pub primary_title: tantivy::schema::Field,
    pub original_title: tantivy::schema::Field,
    pub title_type: tantivy::schema::Field,
    pub start_year: tantivy::schema::Field,
    pub end_year: tantivy::schema::Field,
    pub genres: tantivy::schema::Field,
    pub average_rating: tantivy::schema::Field,
    pub num_votes: tantivy::schema::Field,
    pub search_titles: tantivy::schema::Field,
    pub doc_idx: tantivy::schema::Field,
}

/// Field handles of the person schema.
pub struct NameFields {
    pub nconst: tantivy::schema::Field,
    pub primary_name: tantivy::schema::Field,
    pub primary_name_search: tantivy::schema::Field,
    pub birth_year: tantivy::schema::Field,
    pub death_year: tantivy::schema::Field,
    pub primary_profession: tantivy::schema::Field,
    pub known_for_titles: tantivy::schema::Field,
    pub doc_idx: tantivy::schema::Field,
}

impl TitleFields {
    /// Looks every title field up in the schema; a missing one is the
    /// descriptive error the build aborts with.
    pub fn new(schema: &tantivy::schema::Schema) -> Result<Self, String> {
        let tconst = match engine::schema_field(schema, "tconst") {
            Some(f) => f,
            None => {
                return Err(String::from_str("missing field tconst"));
            },
        };
        let primary_title = match engine::schema_field(schema, "primaryTitle") {
            Some(f) => f,
            None => {
                return Err(String::from_str("missing field primaryTitle"));
            },
        };
        let original_title = match engine::schema_field(schema, "originalTitle") {
            Some(f) => f,
            None => {
                return Err(String::from_str("missing field originalTitle"));
            },
        };
        let title_type = match engine::schema_field(schema, "titleType") {
            Some(f) => f,
            None => {
                return Err(String::from_str("missing field titleType"));
            },
        };
        let start_year = match engine::schema_field(schema, "startYear") {
            Some(f) => f,
            None => {
                return Err(String::from_str("missing field startYear"));
            },
        };
        let end_year = match engine::schema_field(schema, "endYear") {
            Some(f) => f,
            None => {
                return Err(String::from_str("missing field endYear"));
            },
        };
        let genres = match engine::schema_field(schema, "genres") {
            Some(f) => f,
            None => {
                return Err(String::from_str("missing field genres"));
            },
        };
        let average_rating = match engine::schema_field(schema, "averageRating") {
            Some(f) => f,
            None => {
                return Err(String::from_str("missing field averageRating"));
            },
        };
        let num_votes = match engine::schema_field(schema, "numVotes") {
            Some(f) => f,
            None => {
                return Err(String::from_str("missing field numVotes"));
            },
        };
        let search_titles = match engine::schema_field(schema, "searchTitles") {
            Some(f) => f,
            None => {
                return Err(String::from_str("missing field searchTitles"));
            },
        };
        let doc_idx = match engine::schema_field(schema, "docIdx") {
            Some(f) => f,
            None => {
                return Err(String::from_str("missing field docIdx"));
            },
        };
        Ok(
            TitleFields {
                tconst,
                primary_title,
                original_title,
                title_type,
                start_year,
                end_year,
                genres,
                average_rating,
                num_votes,
                search_titles,
                doc_idx,
            },
        )
    }
}

impl NameFields {
    /// Looks every person field up in the schema.
    pub fn new(schema: &tantivy::schema::Schema) -> Result<Self, String> {
        let nconst = match engine::schema_field(schema, "nconst") {
            Some(f) => f,
            None => {
                return Err(String::from_str("missing field nconst"));
            },
        };
        let primary_name = match engine::schema_field(schema, "primaryName") {
            Some(f) => f,
            None => {
                return Err(String::from_str("missing field primaryName"));
            },
        };
        let primary_name_search = match engine::schema_field(schema, "primaryNameSearch") {
            Some(f) => f,
            None => {
                return Err(String::from_str("missing field primaryNameSearch"));
            },
        };
        let birth_year = match engine::schema_field(schema, "birthYear") {
            Some(f) => f,
            None => {
                return Err(String::from_str("missing field birthYear"));
            },
        };
        let death_year = match engine::schema_field(schema, "deathYear") {
            Some(f) => f,
            None => {
                return Err(String::from_str("missing field deathYear"));
            },
        };
        let primary_profession = match engine::schema_field(schema, "primaryProfession") {
            Some(f) => f,
            None => {
                return Err(String::from_str("missing field primaryProfession"));
            },
        };
        let known_for_titles = match engine::schema_field(schema, "knownForTitles") {
            Some(f) => f,
            None => {
                return Err(String::from_str("missing field knownForTitles"));
            },
        };
        let doc_idx = match engine::schema_field(schema, "docIdx") {
            Some(f) => f,
            None => {
                return Err(String::from_str("missing field docIdx"));
            },
        };
        Ok(
            NameFields {
                nconst,
                primary_name,
                primary_name_search,
                birth_year,
                death_year,
                primary_profession,
                known_for_titles,
                doc_idx,
            },
        )
    }
}

/// The title schema: the key and category as exact-match fields, the
/// display names and genres analyzed and stored, the recall-only alias
/// field analyzed only, the numeric fields on the columnar fast path, and
/// the document's position in the store.
pub fn build_title_schema() -> tantivy::schema::Schema {
    let mut b = engine::new_schema_builder();
    engine::add_keyword_field(&mut b, "tconst");
    engine::add_keyword_field(&mut b, "titleType");
    engine::add_text_field(&mut b, "primaryTitle");
    engine::add_text_field(&mut b, "originalTitle");
    engine::add_text_field(&mut b, "genres");
    engine::add_search_field(&mut b, "searchTitles");
    engine::add_numeric_field(&mut b, "startYear");
    engine::add_numeric_field(&mut b, "endYear");
    engine::add_numeric_field(&mut b, "averageRating");
    engine::add_numeric_field(&mut b, "numVotes");
    engine::add_numeric_field(&mut b, "docIdx");
    engine::finish_schema(b)
}

/// The person schema.
pub fn build_name_schema() -> tantivy::schema::Schema {
    let mut b = engine::new_schema_builder();
    engine::add_keyword_field(&mut b, "nconst");
    engine::add_text_field(&mut b, "primaryName");
    engine::add_search_field(&mut b, "primaryNameSearch");
    engine::add_text_field(&mut b, "primaryProfession");
    engine::add_text_field(&mut b, "knownForTitles");
    engine::add_numeric_field(&mut b, "birthYear");
    engine::add_numeric_field(&mut b, "deathYear");
    engine::add_numeric_field(&mut b, "docIdx");
    engine::finish_schema(b)
}

/// The document a valid title row denotes, enriched from the three
/// lookups.
pub open spec fn spec_doc_of_row(
    f: Seq<Seq<char>>,
    ratings: Map<Seq<char>, (i64, i64)>,
    akas: Map<Seq<char>, Seq<Seq<char>>>,
    principals: Map<Seq<char>, Seq<Seq<char>>>,
) -> TitleDocView {
    let tconst = spec_col(f, 0);
    let rating: Option<(i64, i64)> = if ratings.contains_key(tconst) {
        Some(ratings[tconst])
    } else {
        None
    };
    let aka_list: Seq<Seq<char>> = if akas.contains_key(tconst) {
        akas[tconst]
    } else {
        Seq::<Seq<char>>::empty()
    };
    let cast_list: Seq<Seq<char>> = if principals.contains_key(tconst) {
        principals[tconst]
    } else {
        Seq::<Seq<char>>::empty()
    };
    TitleDocView {
        tconst,
        title_type: spec_col(f, 1),
        primary_title: spec_col(f, 2),
        original_title: spec_opt_col(f, 3),
        start_year: spec_opt_col_i64(f, 5),
        end_year: spec_opt_col_i64(f, 6),
        genres: spec_keep_present(spec_split(spec_col(f, 8), ',')),
        average_rating_tenths: match rating {
            Some(rv) => Some(rv.0),
            None => None,
        },
        num_votes: match rating {
            Some(rv) => Some(rv.1),
            None => None,
        },
        search_titles: spec_search_titles(spec_col(f, 2), spec_opt_col(f, 3), aka_list, cast_list),
    }
}

/// The documents the primary rows denote, in order: one per valid row,
/// none for a row whose key or primary name is missing.
pub open spec fn spec_title_docs(
    lines: Seq<Seq<char>>,
    ratings: Map<Seq<char>, (i64, i64)>,
    akas: Map<Seq<char>, Seq<Seq<char>>>,
    principals: Map<Seq<char>, Seq<Seq<char>>>,
) -> Seq<TitleDocView>
    decreases lines.len(),
{
    if lines.len() == 0 {
        Seq::<TitleDocView>::empty()
    } else {
        spec_title_docs(lines.drop_last(), ratings, akas, principals) + {
            let f = spec_split(lines.last(), '\t');
            if spec_title_row_ok(f) {
                seq![spec_doc_of_row(f, ratings, akas, principals)]
            } else {
                Seq::<TitleDocView>::empty()
            }
        }
    }
}

/// Builds the title documents from the primary rows and the three lookup
/// tables.  Rows missing their key or primary name yield no document; the
/// rest yield exactly one each, in order.
#[verifier::loop_isolation(false)]
pub fn build_title_docs(
    basics_data: &Vec<String>,
    ratings: &StrMap<(i64, i64)>,
    akas: &StrMap<Vec<String>>,
    principals: &StrMap<Vec<String>>,
) -> (r: Vec<TitleDoc>)
    ensures
        r.deep_view() == spec_title_docs(
            basics_data.deep_view(),
            ratings.dview(),
            akas.dview(),
            principals.dview(),
        ),
{
    let mut out: Vec<TitleDoc> = Vec::new();
    let mut i: usize = 0;
    proof {
        assert(basics_data.deep_view().take(0) =~= Seq::<Seq<char>>::empty());
        assert(out.deep_view() =~= spec_title_docs(
            basics_data.deep_view().take(0),
            ratings.dview(),
            akas.dview(),
            principals.dview(),
        ));
    }
    while i < basics_data.len()
        invariant
            0 <= i <= basics_data@.len(),
            out.deep_view() == spec_title_docs(
                basics_data.deep_view().take(i as int),
                ratings.dview(),
                akas.dview(),
                principals.dview(),
            ),
        decreases basics_data@.len() - i,
    {
        proof {
            assert(basics_data.deep_view().take(i + 1).drop_last() =~= basics_data.deep_view().take(
                i as int,
            ));
            assert(basics_data.deep_view().take(i + 1).last() == basics_data.deep_view()[i as int]);
        }
        let ghost pre = out.deep_view();
        let line: &String = &basics_data[i];
        let fields = split_on(line.as_str(), '\t');
        match parse_title_record(&fields) {
            Some(rec) => {
                let rating: Option<(i64, i64)> = match ratings.get(rec.tconst.as_str()) {
                    Some(rv) => Some(*rv),
                    None => None,
                };
                let aka_list = akas.get(rec.tconst.as_str());
                let cast_list = principals.get(rec.tconst.as_str());
                let doc = build_title_doc(rec, rating, aka_list, cast_list);
                out.push(doc);
                proof {
                    assert(out.deep_view() =~= pre.push(doc@));
                }
            },
            None => {
                proof {
                    assert(pre + Seq::<TitleDocView>::empty() =~= pre);
                }
            },
        }
        i = i + 1;
    }
    proof {
        assert(basics_data.deep_view().take(basics_data@.len() as int) =~= basics_data.deep_view());
    }
    out
}

/// The person documents the person rows denote, in order.
pub open spec fn spec_name_rec_of_row(f: Seq<Seq<char>>) -> NameRecordView {
    NameRecordView {
        nconst: spec_col(f, 0),
        primary_name: spec_col(f, 1),
        birth_year: spec_opt_col_i64(f, 2),
        death_year: spec_opt_col_i64(f, 3),
        primary_profession: match spec_opt_col(f, 4) {
            Some(s) => s,
            None => Seq::<char>::empty(),
        },
        known_for_titles: match spec_opt_col(f, 5) {
            Some(s) => s,
            None => Seq::<char>::empty(),
        },
    }
}

pub open spec fn spec_name_docs(lines: Seq<Seq<char>>) -> Seq<NameRecordView>
    decreases lines.len(),
{
    if lines.len() == 0 {
        Seq::<NameRecordView>::empty()
    } else {
        spec_name_docs(lines.drop_last()) + {
            let f = spec_split(lines.last(), '\t');
            if spec_name_row_ok(f) {
                seq![spec_name_rec_of_row(f)]
            } else {
                Seq::<NameRecordView>::empty()
            }
        }
    }
}

/// Builds the person documents from the person rows.  Rows missing their
/// key or name yield no document.
#[verifier::loop_isolation(false)]
pub fn build_name_docs(names_data: &Vec<String>) -> (r: Vec<NameRecord>)
    ensures
        r.deep_view() == spec_name_docs(names_data.deep_view()),
{
    let mut out: Vec<NameRecord> = Vec::new();
    let mut i: usize = 0;
    proof {
        assert(names_data.deep_view().take(0) =~= Seq::<Seq<char>>::empty());
        assert(out.deep_view() =~= spec_name_docs(names_data.deep_view().take(0)));
    }
    while i < names_data.len()
        invariant
            0 <= i <= names_data@.len(),
            out.deep_view() == spec_name_docs(names_data.deep_view().take(i as int)),
        decreases names_data@.len() - i,
    {
        proof {
            assert(names_data.deep_view().take(i + 1).drop_last() =~= names_data.deep_view().take(
                i as int,
            ));
            assert(names_data.deep_view().take(i + 1).last() == names_data.deep_view()[i as int]);
        }
        let ghost pre = out.deep_view();
        let line: &String = &names_data[i];
        let fields = split_on(line.as_str(), '\t');
        match parse_name_record(&fields) {
            Some(rec) => {
                proof {
                    if spec_opt_col(fields.deep_view(), 4) is None {
                        assert(rec.primary_profession@ =~= Seq::<char>::empty());
                    }
                    if spec_opt_col(fields.deep_view(), 5) is None {
                        assert(rec.known_for_titles@ =~= Seq::<char>::empty());
                    }
                    assert(rec@ == spec_name_rec_of_row(fields.deep_view()));
                }
                out.push(rec);
                proof {
                    assert(out.deep_view() =~= pre.push(out.deep_view().last()));
                }
            },
            None => {
                proof {
                    assert(pre + Seq::<NameRecordView>::empty() =~= pre);
                }
            },
        }
        i = i + 1;
    }
    proof {
        assert(names_data.deep_view().take(names_data@.len() as int) =~= names_data.deep_view());
    }
    out
}

/// The key table of a document sequence: each key to the position of the
/// last document carrying it.
pub open spec fn spec_ids_of(keys: Seq<Seq<char>>) -> Map<Seq<char>, usize>
    decreases keys.len(),
{
    if keys.len() == 0 {
        Map::<Seq<char>, usize>::empty()
    } else {
        spec_ids_of(keys.drop_last()).insert(keys.last(), (keys.len() - 1) as usize)
    }
}

/// Whatever key the table binds points at a document carrying that key.
pub proof fn lemma_ids_sound(keys: Seq<Seq<char>>, k: Seq<char>)
    requires
        keys.len() <= usize::MAX,
        spec_ids_of(keys).contains_key(k),
    ensures
        spec_ids_of(keys)[k] < keys.len(),
        keys[spec_ids_of(keys)[k] as int] == k,
    decreases keys.len(),
{
    if keys.len() > 0 && keys.last() != k {
        lemma_ids_sound(keys.drop_last(), k);
    }
}

/// LAW (validation): every document the build produces arises from a row
/// whose key and primary name are present — a row missing either yields
/// nothing that could appear in the index.
pub proof fn lemma_docs_only_from_valid_rows(
    lines: Seq<Seq<char>>,
    ratings: Map<Seq<char>, (i64, i64)>,
    akas: Map<Seq<char>, Seq<Seq<char>>>,
    principals: Map<Seq<char>, Seq<Seq<char>>>,
    d: TitleDocView,
)
    requires
        spec_title_docs(lines, ratings, akas, principals).contains(d),
    ensures
        exists|j: int|
            0 <= j < lines.len() && spec_title_row_ok(spec_split(#[trigger] lines[j], '\t')) && d
                == spec_doc_of_row(spec_split(lines[j], '\t'), ratings, akas, principals),
    decreases lines.len(),
{
    let ds = spec_title_docs(lines, ratings, akas, principals);
    let prev = spec_title_docs(lines.drop_last(), ratings, akas, principals);
    let f = spec_split(lines.last(), '\t');
    let i = choose|i: int| 0 <= i < ds.len() && ds[i] == d;
    if i < prev.len() {
        assert(prev[i] == d);
        assert(prev.contains(d));
        lemma_docs_only_from_valid_rows(lines.drop_last(), ratings, akas, principals, d);
        let j = choose|j: int|
            0 <= j < lines.drop_last().len() && spec_title_row_ok(
                spec_split(#[trigger] lines.drop_last()[j], '\t'),
            ) && d == spec_doc_of_row(
                spec_split(lines.drop_last()[j], '\t'),
                ratings,
                akas,
                principals,
            );
        assert(lines.drop_last()[j] == lines[j]);
        assert(spec_title_row_ok(spec_split(lines[j], '\t')) && d == spec_doc_of_row(
            spec_split(lines[j], '\t'),
            ratings,
            akas,
            principals,
        ));
    } else {
        assert(spec_title_row_ok(f) && d == spec_doc_of_row(f, ratings, akas, principals));
        assert(lines[lines.len() - 1] == lines.last());
    }
}

/// LAW (validation, the other way): every row with its key and primary
/// name present contributes its document to the build.
pub proof fn lemma_valid_row_yields_doc(
    lines: Seq<Seq<char>>,
    ratings: Map<Seq<char>, (i64, i64)>,
    akas: Map<Seq<char>, Seq<Seq<char>>>,
    principals: Map<Seq<char>, Seq<Seq<char>>>,
    j: int,
)
    requires
        0 <= j < lines.len(),
        spec_title_row_ok(spec_split(lines[j], '\t')),
    ensures
        spec_title_docs(lines, ratings, akas, principals).contains(
            spec_doc_of_row(spec_split(lines[j], '\t'), ratings, akas, principals),
        ),
    decreases lines.len(),
{
    let ds = spec_title_docs(lines, ratings, akas, principals);
    let prev = spec_title_docs(lines.drop_last(), ratings, akas, principals);
    let d = spec_doc_of_row(spec_split(lines[j], '\t'), ratings, akas, principals);
    if j == lines.len() - 1 {
        assert(lines.last() == lines[j]);
        assert(ds[prev.len() as int] == d);
        assert(ds.contains(d));
    } else {
        assert(lines.drop_last()[j] == lines[j]);
        lemma_valid_row_yields_doc(lines.drop_last(), ratings, akas, principals, j);
        let i = choose|i: int| 0 <= i < prev.len() && prev[i] == d;
        assert(ds[i] == d);
        assert(ds.contains(d));
    }
}

/// The keys of a title document sequence, in order.
pub open spec fn spec_title_keys(ds: Seq<TitleDocView>) -> Seq<Seq<char>> {
    ds.map(|i: int, d: TitleDocView| d.tconst)
}

/// The keys of a person document sequence, in order.
pub open spec fn spec_name_keys(ds: Seq<NameRecordView>) -> Seq<Seq<char>> {
    ds.map(|i: int, d: NameRecordView| d.nconst)
}

/// Builds the key table of the title store.
#[verifier::loop_isolation(false)]
pub fn build_title_id_table(docs: &Vec<TitleDoc>) -> (r: StrMap<usize>)
    ensures
        r@ == spec_ids_of(spec_title_keys(docs.deep_view())),
{
    let ghost keys = spec_title_keys(docs.deep_view());
    let mut m: StrMap<usize> = StrMap::new();
    let mut i: usize = 0;
    proof {
        assert(keys.take(0) =~= Seq::<Seq<char>>::empty());
    }
    while i < docs.len()
        invariant
            0 <= i <= docs@.len(),
            keys == spec_title_keys(docs.deep_view()),
            keys.len() == docs@.len(),
            m@ == spec_ids_of(keys.take(i as int)),
        decreases docs@.len() - i,
    {
        proof {
            assert(keys.take(i + 1).drop_last() =~= keys.take(i as int));
            assert(keys.take(i + 1).last() == keys[i as int]);
        }
        let d: &TitleDoc = &docs[i];
        m.insert(d.tconst.clone(), i);
        i = i + 1;
    }
    proof {
        assert(keys.take(docs@.len() as int) =~= keys);
    }
    m
}

/// Builds the key table of the person store.
#[verifier::loop_isolation(false)]
pub fn build_name_id_table(docs: &Vec<NameRecord>) -> (r: StrMap<usize>)
    ensures
        r@ == spec_ids_of(spec_name_keys(docs.deep_view())),
{
    let ghost keys = spec_name_keys(docs.deep_view());
    let mut m: StrMap<usize> = StrMap::new();
    let mut i: usize = 0;
    proof {
        assert(keys.take(0) =~= Seq::<Seq<char>>::empty());
    }
    while i < docs.len()
        invariant
            0 <= i <= docs@.len(),
            keys == spec_name_keys(docs.deep_view()),
            keys.len() == docs@.len(),
            m@ == spec_ids_of(keys.take(i as int)),
        decreases docs@.len() - i,
    {
        proof {
            assert(keys.take(i + 1).drop_last() =~= keys.take(i as int));
            assert(keys.take(i + 1).last() == keys[i as int]);
        }
        let d: &NameRecord = &docs[i];
        m.insert(d.nconst.clone(), i);
        i = i + 1;
    }
    proof {
        assert(keys.take(docs@.len() as int) =~= keys);
    }
    m
}

/// LAW (round trip): in a store built from rows whose keys are unique —
/// as the source data promises — fetching a valid row's key lands on
/// exactly the document that row denotes, every populated field as
/// `spec_doc_of_row` pins it to its source column or lookup.
pub proof fn lemma_build_fetch_round_trip(
    lines: Seq<Seq<char>>,
    ratings: Map<Seq<char>, (i64, i64)>,
    akas: Map<Seq<char>, Seq<Seq<char>>>,
    principals: Map<Seq<char>, Seq<Seq<char>>>,
    j: int,
)
    requires
        lines.len() <= usize::MAX,
        0 <= j < lines.len(),
        spec_title_row_ok(spec_split(lines[j], '\t')),
        forall|j2: int|
            0 <= j2 < lines.len() && j2 != j && spec_title_row_ok(
                spec_split(#[trigger] lines[j2], '\t'),
            ) ==> spec_split(lines[j2], '\t')[0] != spec_split(lines[j], '\t')[0],
    ensures
        ({
            let ds = spec_title_docs(lines, ratings, akas, principals);
            let key = spec_split(lines[j], '\t')[0];
            let ids = spec_ids_of(spec_title_keys(ds));
            &&& ids.contains_key(key)
            &&& ids[key] < ds.len()
            &&& ds[ids[key] as int] == spec_doc_of_row(
                spec_split(lines[j], '\t'),
                ratings,
                akas,
                principals,
            )
        }),
{
    let ds = spec_title_docs(lines, ratings, akas, principals);
    let f = spec_split(lines[j], '\t');
    let key = f[0];
    let keys = spec_title_keys(ds);
    let d = spec_doc_of_row(f, ratings, akas, principals);
    lemma_valid_row_yields_doc(lines, ratings, akas, principals, j);
    lemma_title_docs_len(lines, ratings, akas, principals);
    let di = choose|di: int| 0 <= di < ds.len() && ds[di] == d;
    assert(keys[di] == key);
    lemma_ids_contains(keys, di);
    let ids = spec_ids_of(keys);
    lemma_ids_sound(keys, key);
    let idx = ids[key] as int;
    assert(ds[idx].tconst == key);
    assert(ds.contains(ds[idx]));
    lemma_docs_only_from_valid_rows(lines, ratings, akas, principals, ds[idx]);
    let j2 = choose|j2: int|
        0 <= j2 < lines.len() && spec_title_row_ok(spec_split(#[trigger] lines[j2], '\t'))
            && ds[idx] == spec_doc_of_row(spec_split(lines[j2], '\t'), ratings, akas, principals);
    assert(spec_split(lines[j2], '\t')[0] == key);
    assert(j2 == j);
}

/// The built sequence is never longer than its source rows.
proof fn lemma_title_docs_len(
    lines: Seq<Seq<char>>,
    ratings: Map<Seq<char>, (i64, i64)>,
    akas: Map<Seq<char>, Seq<Seq<char>>>,
    principals: Map<Seq<char>, Seq<Seq<char>>>,
)
    ensures
        spec_title_docs(lines, ratings, akas, principals).len() <= lines.len(),
    decreases lines.len(),
{
    if lines.len() > 0 {
        lemma_title_docs_len(lines.drop_last(), ratings, akas, principals);
    }
}

/// A key that stands at some position is bound by the key table.
proof fn lemma_ids_contains(keys: Seq<Seq<char>>, i: int)
    requires
        0 <= i < keys.len(),
    ensures
        spec_ids_of(keys).contains_key(keys[i]),
    decreases keys.len(),
{
    if i < keys.len() - 1 {
        lemma_ids_contains(keys.drop_last(), i);
        assert(keys.drop_last()[i] == keys[i]);
    }
}

/// A prepared, queryable title index: the engine's handles for recall and
/// ranking, and the verified document store with its key table.
pub struct TitleIndex {
    pub schema: tantivy::schema::Schema,
    pub fields: TitleFields,
    pub reader: tantivy::IndexReader,
    pub query_parser: tantivy::query::QueryParser,
    pub docs: Vec<TitleDoc>,
    pub ids: StrMap<usize>,
}

impl TitleIndex {
    /// The key table is exactly the one the document store denotes.
    pub open spec fn wf(&self) -> bool {
        self.ids@ == spec_ids_of(spec_title_keys(self.docs.deep_view()))
    }
}

/// A prepared, queryable person index.
pub struct NameIndex {
    pub fields: NameFields,
    pub reader: tantivy::IndexReader,
    pub query_parser: tantivy::query::QueryParser,
    pub docs: Vec<NameRecord>,
    pub ids: StrMap<usize>,
}

impl NameIndex {
    pub open spec fn wf(&self) -> bool {
        self.ids@ == spec_ids_of(spec_name_keys(self.docs.deep_view()))
    }
}

/// Both prepared indexes, ready to serve.
pub struct PreparedIndexes {
    pub titles: TitleIndex,
    pub names: NameIndex,
}

/// Feeds every title document to the engine's writer, carrying its
/// position in the store along as a stored field.
#[verifier::loop_isolation(false)]
fn index_title_docs(
    w: &engine::EngineWriter,
    fields: &TitleFields,
    docs: &Vec<TitleDoc>,
) -> Result<(), String>
    requires
        docs@.len() <= 0x7fff_ffff_ffff_ffff,
{
    let mut i: usize = 0;
    while i < docs.len()
        invariant
            0 <= i <= docs@.len(),
        decreases docs@.len() - i,
    {
        let doc: &TitleDoc = &docs[i];
        let mut d = engine::new_document();
        engine::doc_add_text(&mut d, fields.tconst, doc.tconst.as_str());
        engine::doc_add_text(&mut d, fields.title_type, doc.title_type.as_str());
        engine::doc_add_text(&mut d, fields.primary_title, doc.primary_title.as_str());
        match &doc.original_title {
            Some(o) => {
                engine::doc_add_text(&mut d, fields.original_title, o.as_str());
            },
            None => {},
        }
        let mut j: usize = 0;
        while j < doc.search_titles.len()
            invariant
                0 <= j <= doc.search_titles@.len(),
            decreases doc.search_titles@.len() - j,
        {
            let alias: &String = &doc.search_titles[j];
            engine::doc_add_text(&mut d, fields.search_titles, alias.as_str());
            j = j + 1;
        }
        let mut g: usize = 0;
        while g < doc.genres.len()
            invariant
                0 <= g <= doc.genres@.len(),
            decreases doc.genres@.len() - g,
        {
            let genre: &String = &doc.genres[g];
            engine::doc_add_text(&mut d, fields.genres, genre.as_str());
            g = g + 1;
        }
        match doc.start_year {
            Some(y) => {
                engine::doc_add_i64(&mut d, fields.start_year, y);
            },
            None => {},
        }
        match doc.end_year {
            Some(y) => {
                engine::doc_add_i64(&mut d, fields.end_year, y);
            },
            None => {},
        }
        match doc.average_rating_tenths {
            Some(rt) => {
                engine::doc_add_i64(&mut d, fields.average_rating, rt);
            },
            None => {},
        }
        match doc.num_votes {
            Some(v) => {
                engine::doc_add_i64(&mut d, fields.num_votes, v);
            },
            None => {},
        }
        engine::doc_add_i64(&mut d, fields.doc_idx, i as i64);
        match engine::add_document(w, d) {
            Ok(_) => {},
            Err(e) => {
                return Err(e);
            },
        }
        i = i + 1;
    }
    Ok(())
}

/// Feeds every person document to the engine's writer; the name joins the
/// recall-only search field, and so does the profession column when it is
/// non-empty.
#[verifier::loop_isolation(false)]
fn index_name_docs(
    w: &engine::EngineWriter,
    fields: &NameFields,
    docs: &Vec<NameRecord>,
) -> Result<(), String>
    requires
        docs@.len() <= 0x7fff_ffff_ffff_ffff,
{
    let mut i: usize = 0;
    while i < docs.len()
        invariant
            0 <= i <= docs@.len(),
        decreases docs@.len() - i,
    {
        let doc: &NameRecord = &docs[i];
        let mut d = engine::new_document();
        engine::doc_add_text(&mut d, fields.nconst, doc.nconst.as_str());
        engine::doc_add_text(&mut d, fields.primary_name, doc.primary_name.as_str());
        engine::doc_add_text(&mut d, fields.primary_name_search, doc.primary_name.as_str());
        if doc.primary_profession.as_str().unicode_len() > 0 {
            engine::doc_add_text(&mut d, fields.primary_profession, doc.primary_profession.as_str());
            engine::doc_add_text(&mut d, fields.primary_name_search, doc.primary_profession.as_str());
        }
        if doc.known_for_titles.as_str().unicode_len() > 0 {
            engine::doc_add_text(&mut d, fields.known_for_titles, doc.known_for_titles.as_str());
        }
        match doc.birth_year {
            Some(y) => {
                engine::doc_add_i64(&mut d, fields.birth_year, y);
            },
            None => {},
        }
        match doc.death_year {
            Some(y) => {
                engine::doc_add_i64(&mut d, fields.death_year, y);
            },
            None => {},
        }
        engine::doc_add_i64(&mut d, fields.doc_idx, i as i64);
        match engine::add_document(w, d) {
            Ok(_) => {},
            Err(e) => {
                return Err(e);
            },
        }
        i = i + 1;
    }
    Ok(())
}

/// The query parser of the title index: the primary name weighted
/// highest, then the original name, then the aliases, the genre tags
/// lowest, and one edit of fuzz on every analyzed name field.  The
/// weights are the engine score type's bit patterns for two, six fifths,
/// one, and three tenths.
fn make_title_parser(ix: &tantivy::Index, fields: &TitleFields) -> tantivy::query::QueryParser {
    let defaults: Vec<tantivy::schema::Field> = vec![
        fields.primary_title,
        fields.original_title,
        fields.search_titles,
        fields.genres,
    ];
    let mut p = engine::make_query_parser(ix, defaults);
    engine::set_field_boost_raw(&mut p, fields.primary_title, 0x4000_0000);
    engine::set_field_boost_raw(&mut p, fields.original_title, 0x3f99_999a);
    engine::set_field_boost_raw(&mut p, fields.search_titles, 0x3f80_0000);
    engine::set_field_boost_raw(&mut p, fields.genres, 0x3e99_999a);
    engine::set_field_fuzzy(&mut p, fields.primary_title, false, 1, true);
    engine::set_field_fuzzy(&mut p, fields.original_title, false, 1, true);
    engine::set_field_fuzzy(&mut p, fields.search_titles, false, 1, true);
    p
}

/// The query parser of the person index: the searchable name weighted
/// three halves, fuzz on the name and the profession.
fn make_name_parser(ix: &tantivy::Index, fields: &NameFields) -> tantivy::query::QueryParser {
    let defaults: Vec<tantivy::schema::Field> = vec![
        fields.primary_name_search,
        fields.primary_profession,
    ];
    let mut p = engine::make_query_parser(ix, defaults);
    engine::set_field_boost_raw(&mut p, fields.primary_name_search, 0x3fc0_0000);
    engine::set_field_fuzzy(&mut p, fields.primary_name_search, false, 1, true);
    engine::set_field_fuzzy(&mut p, fields.primary_profession, false, 1, true);
    p
}

/// Assembles the queryable title index around an engine index that
/// already holds the store's documents.
fn assemble_title_index(index: &tantivy::Index, docs: Vec<TitleDoc>) -> (r: Result<
    TitleIndex,
    String,
>)
    ensures
        r matches Ok(ix) ==> ix.wf() && ix.docs == docs,
{
    let schema = engine::index_schema(index);
    let fields = match TitleFields::new(&schema) {
        Ok(f) => f,
        Err(e) => {
            return Err(e);
        },
    };
    let reader = match engine::make_reader(index) {
        Ok(rd) => rd,
        Err(e) => {
            return Err(e);
        },
    };
    let query_parser = make_title_parser(index, &fields);
    let ids = build_title_id_table(&docs);
    Ok(TitleIndex { schema, fields, reader, query_parser, docs, ids })
}

fn assemble_name_index(index: &tantivy::Index, docs: Vec<NameRecord>) -> (r: Result<
    NameIndex,
    String,
>)
    ensures
        r matches Ok(ix) ==> ix.wf() && ix.docs == docs,
{
    let schema = engine::index_schema(index);
    let fields = match NameFields::new(&schema) {
        Ok(f) => f,
        Err(e) => {
            return Err(e);
        },
    };
    let reader = match engine::make_reader(index) {
        Ok(rd) => rd,
        Err(e) => {
            return Err(e);
        },
    };
    let query_parser = make_name_parser(index, &fields);
    let ids = build_name_id_table(&docs);
    Ok(NameIndex { fields, reader, query_parser, docs, ids })
}

/// Writes the title documents into a fresh engine index and commits.
fn write_title_index(
    index: &tantivy::Index,
    docs: &Vec<TitleDoc>,
) -> Result<(), String>
    requires
        docs@.len() <= 0x7fff_ffff_ffff_ffff,
{
    let schema = engine::index_schema(index);
    let fields = match TitleFields::new(&schema) {
        Ok(f) => f,
        Err(e) => {
            return Err(e);
        },
    };
    let mut writer = match engine::make_writer(index, 256 * 1024 * 1024) {
        Ok(w) => w,
        Err(e) => {
            return Err(e);
        },
    };
    match index_title_docs(&writer, &fields, docs) {
        Ok(_) => {},
        Err(e) => {
            return Err(e);
        },
    }
    match engine::commit_writer(&mut writer) {
        Ok(_) => Ok(()),
        Err(e) => Err(e),
    }
}

/// Writes the person documents into a fresh engine index and commits.
fn write_name_index(
    index: &tantivy::Index,
    docs: &Vec<NameRecord>,
) -> Result<(), String>
    requires
        docs@.len() <= 0x7fff_ffff_ffff_ffff,
{
    let schema = engine::index_schema(index);
    let fields = match NameFields::new(&schema) {
        Ok(f) => f,
        Err(e) => {
            return Err(e);
        },
    };
    let mut writer = match engine::make_writer(index, 128 * 1024 * 1024) {
        Ok(w) => w,
        Err(e) => {
            return Err(e);
        },
    };
    match index_name_docs(&writer, &fields, docs) {
        Ok(_) => {},
        Err(e) => {
            return Err(e);
        },
    }
    match engine::commit_writer(&mut writer) {
        Ok(_) => Ok(()),
        Err(e) => Err(e),
    }
}

/// What the title store holds after a build from these sources.
pub open spec fn spec_title_store(
    basics: Seq<Seq<char>>,
    ratings: Seq<Seq<char>>,
    akas: Seq<Seq<char>>,
    principals: Map<Seq<char>, Seq<Seq<char>>>,
) -> Seq<TitleDocView> {
    spec_title_docs(
        basics,
        crate::xref::spec_ratings_of(ratings),
        crate::xref::spec_akas_of(akas),
        principals,
    )
}

/// Builds a title index in memory from the source rows; the engine is fed
/// the same documents the store holds.
pub fn build_title_index_in_ram(
    basics_data: &Vec<String>,
    ratings_data: &Vec<String>,
    akas_data: &Vec<String>,
    principals: &StrMap<Vec<String>>,
) -> (r: Result<TitleIndex, String>)
    ensures
        r matches Ok(ix) ==> ix.wf() && ix.docs.deep_view() == spec_title_store(
            basics_data.deep_view(),
            ratings_data.deep_view(),
            akas_data.deep_view(),
            principals.dview(),
        ),
{
    let ratings = crate::xref::load_ratings_map(ratings_data);
    let akas = crate::xref::load_aka_map(akas_data);
    let docs = build_title_docs(basics_data, &ratings, &akas, principals);
    if docs.len() as u64 > 0x7fff_ffff_ffff_ffffu64 {
        return Err(String::from_str("too many documents"));
    }
    let index = engine::create_index_in_ram(build_title_schema());
    match write_title_index(&index, &docs) {
        Ok(_) => {},
        Err(e) => {
            return Err(e);
        },
    }
    assemble_title_index(&index, docs)
}

/// Builds a person index in memory from the source rows.
pub fn build_name_index_in_ram(names_data: &Vec<String>) -> (r: Result<NameIndex, String>)
    ensures
        r matches Ok(ix) ==> ix.wf() && ix.docs.deep_view() == spec_name_docs(
            names_data.deep_view(),
        ),
{
    let docs = build_name_docs(names_data);
    if docs.len() as u64 > 0x7fff_ffff_ffff_ffffu64 {
        return Err(String::from_str("too many documents"));
    }
    let index = engine::create_index_in_ram(build_name_schema());
    match write_name_index(&index, &docs) {
        Ok(_) => {},
        Err(e) => {
            return Err(e);
        },
    }
    assemble_name_index(&index, docs)
}

/// Prepares the title index under `index_dir`, building it there first
/// when no index is found; the document store is rebuilt from the source
/// rows either way.  The directory must exist.
pub fn prepare_title_index(
    index_dir: &str,
    basics_data: &Vec<String>,
    ratings_data: &Vec<String>,
    akas_data: &Vec<String>,
    principals: &StrMap<Vec<String>>,
) -> (r: Result<TitleIndex, String>)
    ensures
        r matches Ok(ix) ==> ix.wf() && ix.docs.deep_view() == spec_title_store(
            basics_data.deep_view(),
            ratings_data.deep_view(),
            akas_data.deep_view(),
            principals.dview(),
        ),
{
    let ratings = crate::xref::load_ratings_map(ratings_data);
    let akas = crate::xref::load_aka_map(akas_data);
    let docs = build_title_docs(basics_data, &ratings, &akas, principals);
    if docs.len() as u64 > 0x7fff_ffff_ffff_ffffu64 {
        return Err(String::from_str("too many documents"));
    }
    if !engine::index_exists(index_dir) {
        let index = match engine::create_index_in_dir(index_dir, build_title_schema()) {
            Ok(ix) => ix,
            Err(e) => {
                return Err(e);
            },
        };
        match write_title_index(&index, &docs) {
            Ok(_) => {},
            Err(e) => {
                return Err(e);
            },
        }
    }
    let index = match engine::open_index_in_dir(index_dir) {
        Ok(ix) => ix,
        Err(e) => {
            return Err(e);
        },
    };
    assemble_title_index(&index, docs)
}

/// Prepares the person index under `index_dir`, building it there first
/// when no index is found.
pub fn prepare_name_index(index_dir: &str, names_data: &Vec<String>) -> (r: Result<
    NameIndex,
    String,
>)
    ensures
        r matches Ok(ix) ==> ix.wf() && ix.docs.deep_view() == spec_name_docs(
            names_data.deep_view(),
        ),
{
    let docs = build_name_docs(names_data);
    if docs.len() as u64 > 0x7fff_ffff_ffff_ffffu64 {
        return Err(String::from_str("too many documents"));
    }
    if !engine::index_exists(index_dir) {
        let index = match engine::create_index_in_dir(index_dir, build_name_schema()) {
            Ok(ix) => ix,
            Err(e) => {
                return Err(e);
            },
        };
        match write_name_index(&index, &docs) {
            Ok(_) => {},
            Err(e) => {
                return Err(e);
            },
        }
    }
    let index = match engine::open_index_in_dir(index_dir) {
        Ok(ix) => ix,
        Err(e) => {
            return Err(e);
        },
    };
    assemble_name_index(&index, docs)
}

/// Prepares both indexes from the five source datasets: the name table
/// and the cast table first, then the two indexes.  Both index
/// directories must exist.
pub fn prepare_indexes(
    title_index_dir: &str,
    name_index_dir: &str,
    basics_data: &Vec<String>,
    ratings_data: &Vec<String>,
    akas_data: &Vec<String>,
    names_data: &Vec<String>,
    principals_data: &Vec<String>,
) -> (r: Result<PreparedIndexes, String>)
    ensures
        r matches Ok(p) ==> p.titles.wf() && p.names.wf() && p.names.docs.deep_view()
            == spec_name_docs(names_data.deep_view()) && p.titles.docs.deep_view()
            == spec_title_store(
            basics_data.deep_view(),
            ratings_data.deep_view(),
            akas_data.deep_view(),
            crate::xref::spec_principals_of(
                principals_data.deep_view(),
                crate::xref::spec_names_of(names_data.deep_view()),
            ),
        ),
{
    let name_lookup = crate::xref::load_name_map(names_data);
    let principals = crate::xref::load_principals_map(principals_data, &name_lookup);
    let titles = match prepare_title_index(
        title_index_dir,
        basics_data,
        ratings_data,
        akas_data,
        &principals,
    ) {
        Ok(t) => t,
        Err(e) => {
            return Err(e);
        },
    };
    let names = match prepare_name_index(name_index_dir, names_data) {
        Ok(n) => n,
        Err(e) => {
            return Err(e);
        },
    };
    Ok(PreparedIndexes { titles, names })
}

} // verus!
