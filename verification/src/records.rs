//! Typed records read from one row of each source dataset.  A row is a
//! line already split into columns; a record is produced only when the row
//! carries its key and its required display field, as the build demands.

use vstd::prelude::*;
use crate::rows::{
    is_absent_field, parse_i64, parse_rating_tenths, spec_is_absent, spec_parse_signed,
    spec_parse_rating_tenths,
};

verus! {

/// One row of the primary title dataset.
pub struct TitleRecord {
    pub tconst: String,
    pub title_type: String,
    pub primary_title: String,
    pub original_title: Option<String>,
    pub start_year: Option<i64>,
    pub end_year: Option<i64>,
    pub genres: Vec<String>,
}

/// One row of the person dataset.
pub struct NameRecord {
    pub nconst: String,
    pub primary_name: String,
    pub birth_year: Option<i64>,
    pub death_year: Option<i64>,
    pub primary_profession: String,
    pub known_for_titles: String,
}

/// The mathematical shape of one person record.
pub struct NameRecordView {
    pub nconst: Seq<char>,
    pub primary_name: Seq<char>,
    pub birth_year: Option<i64>,
    pub death_year: Option<i64>,
    pub primary_profession: Seq<char>,
    pub known_for_titles: Seq<char>,
}

impl View for NameRecord {
    type V = NameRecordView;

    open spec fn view(&self) -> NameRecordView {
        NameRecordView {
            nconst: self.nconst@,
            primary_name: self.primary_name@,
            birth_year: self.birth_year,
            death_year: self.death_year,
            primary_profession: self.primary_profession@,
            known_for_titles: self.known_for_titles@,
        }
    }
}

impl DeepView for NameRecord {
    type V = NameRecordView;

    open spec fn deep_view(&self) -> NameRecordView {
        self.view()
    }
}

/// A title row yields a record exactly when its key and its primary name
/// are present.
pub open spec fn spec_title_row_ok(f: Seq<Seq<char>>) -> bool {
    f.len() > 2 && !spec_is_absent(f[0]) && !spec_is_absent(f[2])
}

/// A person row yields a record exactly when its key and its name are
/// present.
pub open spec fn spec_name_row_ok(f: Seq<Seq<char>>) -> bool {
    f.len() > 1 && !spec_is_absent(f[0]) && !spec_is_absent(f[1])
}

/// The column at `i`, or the empty string when the row is too short.
pub open spec fn spec_col(f: Seq<Seq<char>>, i: int) -> Seq<char> {
    if 0 <= i < f.len() {
        f[i]
    } else {
        Seq::<char>::empty()
    }
}

/// An optional text column: absent columns and missing columns are `None`.
pub open spec fn spec_opt_col(f: Seq<Seq<char>>, i: int) -> Option<Seq<char>> {
    if spec_is_absent(spec_col(f, i)) {
        None
    } else {
        Some(spec_col(f, i))
    }
}

/// An optional integer column.
pub open spec fn spec_opt_col_i64(f: Seq<Seq<char>>, i: int) -> Option<i64> {
    match spec_opt_col(f, i) {
        None => None,
        Some(s) => spec_parse_signed(s),
    }
}

/// An optional rating column, in tenths.
pub open spec fn spec_opt_col_rating(f: Seq<Seq<char>>, i: int) -> Option<i64> {
    match spec_opt_col(f, i) {
        None => None,
        Some(s) => spec_parse_rating_tenths(s),
    }
}

/// The present pieces of a multi-valued column, in order.
pub open spec fn spec_keep_present(gs: Seq<Seq<char>>) -> Seq<Seq<char>>
    decreases gs.len(),
{
    if gs.len() == 0 {
        Seq::<Seq<char>>::empty()
    } else {
        spec_keep_present(gs.drop_last()) + if spec_is_absent(gs.last()) {
            Seq::<Seq<char>>::empty()
        } else {
            seq![gs.last()]
        }
    }
}

/// Reads the column at `i` as an owned string, empty when missing.
pub fn col_string(fields: &Vec<String>, i: usize) -> (r: String)
    ensures
        r@ == spec_col(fields.deep_view(), i as int),
{
    if i < fields.len() {
        let s: &String = &fields[i];
        s.clone()
    } else {
        String::new()
    }
}

/// Reads the column at `i` as an optional string.
pub fn col_opt_string(fields: &Vec<String>, i: usize) -> (r: Option<String>)
    ensures
        r matches Some(s) ==> Some(s@) == spec_opt_col(fields.deep_view(), i as int),
        r is None ==> spec_opt_col(fields.deep_view(), i as int) is None,
{
    if i < fields.len() {
        let s: &String = &fields[i];
        if is_absent_field(s.as_str()) {
            None
        } else {
            Some(s.clone())
        }
    } else {
        proof {
            assert(spec_is_absent(Seq::<char>::empty()));
        }
        None
    }
}

/// Reads the column at `i` as an optional integer.
pub fn col_opt_i64(fields: &Vec<String>, i: usize) -> (r: Option<i64>)
    ensures
        r == spec_opt_col_i64(fields.deep_view(), i as int),
{
    if i < fields.len() {
        let s: &String = &fields[i];
        parse_i64(Some(s.as_str()))
    } else {
        proof {
            assert(spec_is_absent(Seq::<char>::empty()));
        }
        None
    }
}

/// Reads the column at `i` as an optional rating, in tenths.
pub fn col_opt_rating(fields: &Vec<String>, i: usize) -> (r: Option<i64>)
    ensures
        r == spec_opt_col_rating(fields.deep_view(), i as int),
{
    if i < fields.len() {
        let s: &String = &fields[i];
        parse_rating_tenths(Some(s.as_str()))
    } else {
        proof {
            assert(spec_is_absent(Seq::<char>::empty()));
        }
        None
    }
}

/// Keeps the present pieces of an already-split multi-valued column.
#[verifier::loop_isolation(false)]
pub fn keep_present(pieces: &Vec<String>) -> (r: Vec<String>)
    ensures
        r.deep_view() == spec_keep_present(pieces.deep_view()),
{
    let mut out: Vec<String> = Vec::new();
    let mut i: usize = 0;
    proof {
        assert(pieces.deep_view().take(0) =~= Seq::<Seq<char>>::empty());
        assert(out.deep_view() =~= spec_keep_present(pieces.deep_view().take(0)));
    }
    while i < pieces.len()
        invariant
            0 <= i <= pieces.len(),
            out.deep_view() == spec_keep_present(pieces.deep_view().take(i as int)),
        decreases pieces.len() - i,
    {
        let ghost prefix = pieces.deep_view().take(i as int);
        let s: &String = &pieces[i];
        proof {
            assert(pieces.deep_view().take(i + 1).drop_last() =~= prefix);
            assert(pieces.deep_view().take(i + 1).last() == s@);
        }
        if !is_absent_field(s.as_str()) {
            out.push(s.clone());
            proof {
                assert(out.deep_view() =~= spec_keep_present(prefix) + seq![s@]);
            }
        }
        proof {
            assert(out.deep_view() =~= spec_keep_present(pieces.deep_view().take(i + 1)));
        }
        i = i + 1;
    }
    proof {
        assert(pieces.deep_view().take(pieces.len() as int) =~= pieces.deep_view());
    }
    out
}

/// Parses one title row, skipping it when the key or the primary name is
/// missing; year columns become integers only when they parse, and absent
/// pieces of the genre list are dropped.
pub fn parse_title_record(fields: &Vec<String>) -> (r: Option<TitleRecord>)
    ensures
        r is Some <==> spec_title_row_ok(fields.deep_view()),
        r matches Some(rec) ==> {
            let f = fields.deep_view();
            &&& rec.tconst@ == spec_col(f, 0)
            &&& rec.title_type@ == spec_col(f, 1)
            &&& rec.primary_title@ == spec_col(f, 2)
            &&& (match rec.original_title {
                Some(t) => Some(t@) == spec_opt_col(f, 3),
                None => spec_opt_col(f, 3) is None,
            })
            &&& rec.start_year == spec_opt_col_i64(f, 5)
            &&& rec.end_year == spec_opt_col_i64(f, 6)
            &&& rec.genres.deep_view() == spec_keep_present(crate::rows::spec_split(
                spec_col(f, 8),
                ',',
            ))
        },
{
    if fields.len() <= 2 {
        return None;
    }
    let tconst = match col_opt_string(fields, 0) {
        Some(t) => t,
        None => {
            return None;
        },
    };
    let primary_title = match col_opt_string(fields, 2) {
        Some(t) => t,
        None => {
            return None;
        },
    };
    let genre_col = col_string(fields, 8);
    let pieces = crate::rows::split_on(genre_col.as_str(), ',');
    let genres = keep_present(&pieces);
    Some(
        TitleRecord {
            tconst,
            title_type: col_string(fields, 1),
            primary_title,
            original_title: col_opt_string(fields, 3),
            start_year: col_opt_i64(fields, 5),
            end_year: col_opt_i64(fields, 6),
            genres,
        },
    )
}

/// Parses one person row, skipping it when the key or the name is missing;
/// the profession and known-for columns stay as stored, empty when absent.
pub fn parse_name_record(fields: &Vec<String>) -> (r: Option<NameRecord>)
    ensures
        r is Some <==> spec_name_row_ok(fields.deep_view()),
        r matches Some(rec) ==> {
            let f = fields.deep_view();
            &&& rec.nconst@ == spec_col(f, 0)
            &&& rec.primary_name@ == spec_col(f, 1)
            &&& rec.birth_year == spec_opt_col_i64(f, 2)
            &&& rec.death_year == spec_opt_col_i64(f, 3)
            &&& (match spec_opt_col(f, 4) {
                Some(s) => rec.primary_profession@ == s,
                None => rec.primary_profession@.len() == 0,
            })
            &&& (match spec_opt_col(f, 5) {
                Some(s) => rec.known_for_titles@ == s,
                None => rec.known_for_titles@.len() == 0,
            })
        },
{
    if fields.len() <= 1 {
        return None;
    }
    let nconst = match col_opt_string(fields, 0) {
        Some(t) => t,
        None => {
            return None;
        },
    };
    let primary_name = match col_opt_string(fields, 1) {
        Some(t) => t,
        None => {
            return None;
        },
    };
    let primary_profession = match col_opt_string(fields, 4) {
        Some(s) => s,
        None => String::new(),
    };
    let known_for_titles = match col_opt_string(fields, 5) {
        Some(s) => s,
        None => String::new(),
    };
    Some(
        NameRecord {
            nconst,
            primary_name,
            birth_year: col_opt_i64(fields, 2),
            death_year: col_opt_i64(fields, 3),
            primary_profession,
            known_for_titles,
        },
    )
}

} // verus!
