//! Cross-reference builders: build-time lookup tables from one dataset's
//! key to values derived from another, so the document build can enrich
//! each record in one lookup.  Each builder folds the data rows of its
//! file in order; rows without their key are skipped, never fatal.

use vstd::prelude::*;
use crate::records::{spec_opt_col_i64, spec_opt_col_rating};
use crate::rows::{spec_is_absent, spec_split, split_on};
use crate::strmap::StrMap;
use crate::text::str_eq;

verus! {

/// A clone of a vector of strings, character-exact.
pub fn clone_strings(v: &Vec<String>) -> (r: Vec<String>)
    ensures
        r@ == v@,
{
    let mut out: Vec<String> = Vec::new();
    let mut i: usize = 0;
    while i < v.len()
        invariant
            0 <= i <= v@.len(),
            out@ =~= v@.take(i as int),
        decreases v@.len() - i,
    {
        let s: &String = &v[i];
        out.push(s.clone());
        proof {
            assert(out@ =~= v@.take(i + 1));
        }
        i = i + 1;
    }
    proof {
        assert(v@.take(v@.len() as int) =~= v@);
    }
    out
}

/// Whether some element of `v` equals `s`, character-exact.
pub fn contains_string(v: &Vec<String>, s: &str) -> (r: bool)
    ensures
        r == v.deep_view().contains(s@),
{
    let mut i: usize = 0;
    while i < v.len()
        invariant
            0 <= i <= v@.len(),
            forall|j: int| 0 <= j < i ==> v.deep_view()[j] != s@,
        decreases v@.len() - i,
    {
        let e: &String = &v[i];
        if str_eq(e.as_str(), s) {
            proof {
                assert(v.deep_view()[i as int] == s@);
            }
            return true;
        }
        i = i + 1;
    }
    proof {
        assert(!v.deep_view().contains(s@));
    }
    false
}

/// One ratings row folded into the table: key, rating and votes must all
/// be present and numeric, or the row is skipped.
pub open spec fn spec_ratings_step(
    m: Map<Seq<char>, (i64, i64)>,
    line: Seq<char>,
) -> Map<Seq<char>, (i64, i64)> {
    let f = spec_split(line, '\t');
    if f.len() >= 3 && !spec_is_absent(f[0]) {
        match (spec_opt_col_rating(f, 1), spec_opt_col_i64(f, 2)) {
            (Some(r), Some(v)) => m.insert(f[0], (r, v)),
            _ => m,
        }
    } else {
        m
    }
}

/// The ratings table: title key to rating in tenths and vote count.
pub open spec fn spec_ratings_of(lines: Seq<Seq<char>>) -> Map<Seq<char>, (i64, i64)>
    decreases lines.len(),
{
    if lines.len() == 0 {
        Map::<Seq<char>, (i64, i64)>::empty()
    } else {
        spec_ratings_step(spec_ratings_of(lines.drop_last()), lines.last())
    }
}

/// Builds the ratings table from the data rows of the ratings file.
#[verifier::loop_isolation(false)]
pub fn load_ratings_map(data_lines: &Vec<String>) -> (r: StrMap<(i64, i64)>)
    ensures
        r.dview() == spec_ratings_of(data_lines.deep_view()),
{
    let mut m: StrMap<(i64, i64)> = StrMap::new();
    let mut i: usize = 0;
    while i < data_lines.len()
        invariant
            0 <= i <= data_lines@.len(),
            m.dview() == spec_ratings_of(data_lines.deep_view().take(i as int)),
        decreases data_lines@.len() - i,
    {
        proof {
            assert(data_lines.deep_view().take(i + 1).drop_last() =~= data_lines.deep_view().take(
                i as int,
            ));
            assert(data_lines.deep_view().take(i + 1).last() == data_lines.deep_view()[i as int]);
        }
        let line: &String = &data_lines[i];
        let fields = split_on(line.as_str(), '\t');
        if fields.len() >= 3 {
            let key = crate::records::col_opt_string(&fields, 0);
            let rating = crate::records::col_opt_rating(&fields, 1);
            let votes = crate::records::col_opt_i64(&fields, 2);
            match (key, rating, votes) {
                (Some(k), Some(rt), Some(vt)) => {
                    m.insert(k, (rt, vt));
                },
                _ => {},
            }
        }
        i = i + 1;
    }
    proof {
        assert(data_lines.deep_view().take(data_lines@.len() as int) =~= data_lines.deep_view());
    }
    m
}

/// LAW (numeric hygiene): whatever the ratings table binds parsed from a
/// present, numeric source column of some row — the absence token never
/// becomes a stored number — and every stored rating sits on the
/// zero-to-ten scale, in tenths.
pub proof fn lemma_ratings_parsed_and_in_range(lines: Seq<Seq<char>>, k: Seq<char>)
    requires
        spec_ratings_of(lines).contains_key(k),
    ensures
        0 <= spec_ratings_of(lines)[k].0 <= 100,
        exists|j: int|
            {
                let f = spec_split(#[trigger] lines[j], '\t');
                &&& 0 <= j < lines.len()
                &&& f.len() >= 3
                &&& !spec_is_absent(f[0])
                &&& f[0] == k
                &&& spec_opt_col_rating(f, 1) == Some(spec_ratings_of(lines)[k].0)
                &&& spec_opt_col_i64(f, 2) == Some(spec_ratings_of(lines)[k].1)
            },
    decreases lines.len(),
{
    let m = spec_ratings_of(lines);
    let prev = spec_ratings_of(lines.drop_last());
    let f = spec_split(lines.last(), '\t');
    let stepped = f.len() >= 3 && !spec_is_absent(f[0]) && spec_opt_col_rating(f, 1) is Some
        && spec_opt_col_i64(f, 2) is Some;
    if stepped && f[0] == k {
        assert(lines[lines.len() - 1] == lines.last());
        assert(m[k].0 == spec_opt_col_rating(f, 1)->Some_0);
    } else {
        assert(prev.contains_key(k) && m[k] == prev[k]);
        lemma_ratings_parsed_and_in_range(lines.drop_last(), k);
        let j = choose|j: int|
            {
                let f2 = spec_split(#[trigger] lines.drop_last()[j], '\t');
                &&& 0 <= j < lines.drop_last().len()
                &&& f2.len() >= 3
                &&& !spec_is_absent(f2[0])
                &&& f2[0] == k
                &&& spec_opt_col_rating(f2, 1) == Some(prev[k].0)
                &&& spec_opt_col_i64(f2, 2) == Some(prev[k].1)
            };
        assert(lines.drop_last()[j] == lines[j]);
    }
}

/// One person row folded into the name table: key to display name, both
/// present or the row is skipped.
pub open spec fn spec_names_step(
    m: Map<Seq<char>, Seq<char>>,
    line: Seq<char>,
) -> Map<Seq<char>, Seq<char>> {
    let f = spec_split(line, '\t');
    if f.len() > 1 && !spec_is_absent(f[0]) && !spec_is_absent(f[1]) {
        m.insert(f[0], f[1])
    } else {
        m
    }
}

/// The name table: person key to display name.
pub open spec fn spec_names_of(lines: Seq<Seq<char>>) -> Map<Seq<char>, Seq<char>>
    decreases lines.len(),
{
    if lines.len() == 0 {
        Map::<Seq<char>, Seq<char>>::empty()
    } else {
        spec_names_step(spec_names_of(lines.drop_last()), lines.last())
    }
}

/// Builds the name table from the data rows of the person file.
#[verifier::loop_isolation(false)]
pub fn load_name_map(data_lines: &Vec<String>) -> (r: StrMap<String>)
    ensures
        r.dview() == spec_names_of(data_lines.deep_view()),
{
    let mut m: StrMap<String> = StrMap::new();
    let mut i: usize = 0;
    while i < data_lines.len()
        invariant
            0 <= i <= data_lines@.len(),
            m.dview() == spec_names_of(data_lines.deep_view().take(i as int)),
        decreases data_lines@.len() - i,
    {
        proof {
            assert(data_lines.deep_view().take(i + 1).drop_last() =~= data_lines.deep_view().take(
                i as int,
            ));
            assert(data_lines.deep_view().take(i + 1).last() == data_lines.deep_view()[i as int]);
        }
        let line: &String = &data_lines[i];
        let fields = split_on(line.as_str(), '\t');
        if fields.len() > 1 {
            let key = crate::records::col_opt_string(&fields, 0);
            let name = crate::records::col_opt_string(&fields, 1);
            match (key, name) {
                (Some(k), Some(nm)) => {
                    m.insert(k, nm);
                },
                _ => {},
            }
        }
        i = i + 1;
    }
    proof {
        assert(data_lines.deep_view().take(data_lines@.len() as int) =~= data_lines.deep_view());
    }
    m
}

/// One alternate-titles row folded into the table: the title key and the
/// alternate title must be present; every present title is kept, in order,
/// duplicates included — deduplication happens per document at build time.
pub open spec fn spec_akas_step(
    m: Map<Seq<char>, Seq<Seq<char>>>,
    line: Seq<char>,
) -> Map<Seq<char>, Seq<Seq<char>>> {
    let f = spec_split(line, '\t');
    if f.len() > 2 && !spec_is_absent(f[0]) && !spec_is_absent(f[2]) {
        let cur: Seq<Seq<char>> = if m.contains_key(f[0]) {
            m[f[0]]
        } else {
            Seq::<Seq<char>>::empty()
        };
        m.insert(f[0], cur.push(f[2]))
    } else {
        m
    }
}

/// The alternate-titles table: title key to its regional titles, in file
/// order.
pub open spec fn spec_akas_of(lines: Seq<Seq<char>>) -> Map<Seq<char>, Seq<Seq<char>>>
    decreases lines.len(),
{
    if lines.len() == 0 {
        Map::<Seq<char>, Seq<Seq<char>>>::empty()
    } else {
        spec_akas_step(spec_akas_of(lines.drop_last()), lines.last())
    }
}

/// Builds the alternate-titles table from the data rows of its file.
#[verifier::loop_isolation(false)]
pub fn load_aka_map(data_lines: &Vec<String>) -> (r: StrMap<Vec<String>>)
    ensures
        r.dview() == spec_akas_of(data_lines.deep_view()),
{
    let mut m: StrMap<Vec<String>> = StrMap::new();
    let mut i: usize = 0;
    while i < data_lines.len()
        invariant
            0 <= i <= data_lines@.len(),
            m.dview() == spec_akas_of(data_lines.deep_view().take(i as int)),
        decreases data_lines@.len() - i,
    {
        proof {
            assert(data_lines.deep_view().take(i + 1).drop_last() =~= data_lines.deep_view().take(
                i as int,
            ));
            assert(data_lines.deep_view().take(i + 1).last() == data_lines.deep_view()[i as int]);
        }
        let line: &String = &data_lines[i];
        let fields = split_on(line.as_str(), '\t');
        if fields.len() > 2 {
            let key = crate::records::col_opt_string(&fields, 0);
            let title = crate::records::col_opt_string(&fields, 2);
            match (key, title) {
                (Some(k), Some(t)) => {
                    let ghost f = fields.deep_view();
                    let mut cur: Vec<String> = match m.get(k.as_str()) {
                        Some(v) => clone_strings(v),
                        None => Vec::new(),
                    };
                    let ghost cur0 = cur.deep_view();
                    proof {
                        if m.dview().contains_key(f[0]) {
                            assert(cur0 =~= m.dview()[f[0]]);
                        } else {
                            assert(cur0 =~= Seq::<Seq<char>>::empty());
                        }
                    }
                    cur.push(t);
                    proof {
                        assert(cur.deep_view() =~= cur0.push(t@));
                    }
                    m.insert(k, cur);
                },
                _ => {},
            }
        }
        i = i + 1;
    }
    proof {
        assert(data_lines.deep_view().take(data_lines@.len() as int) =~= data_lines.deep_view());
    }
    m
}

/// One cast row folded into the table: with the title key, the person key
/// and a known display name, the name joins the title's cast list unless
/// it is already there.
pub open spec fn spec_principals_step(
    m: Map<Seq<char>, Seq<Seq<char>>>,
    names: Map<Seq<char>, Seq<char>>,
    line: Seq<char>,
) -> Map<Seq<char>, Seq<Seq<char>>> {
    let f = spec_split(line, '\t');
    if f.len() > 2 && !spec_is_absent(f[0]) && !spec_is_absent(f[2]) && names.contains_key(f[2]) {
        let nm = names[f[2]];
        let cur: Seq<Seq<char>> = if m.contains_key(f[0]) {
            m[f[0]]
        } else {
            Seq::<Seq<char>>::empty()
        };
        if cur.contains(nm) {
            m
        } else {
            m.insert(f[0], cur.push(nm))
        }
    } else {
        m
    }
}

/// The cast table: title key to the deduplicated display names of its
/// cast and crew, resolved through the name table.
pub open spec fn spec_principals_of(
    lines: Seq<Seq<char>>,
    names: Map<Seq<char>, Seq<char>>,
) -> Map<Seq<char>, Seq<Seq<char>>>
    decreases lines.len(),
{
    if lines.len() == 0 {
        Map::<Seq<char>, Seq<Seq<char>>>::empty()
    } else {
        spec_principals_step(spec_principals_of(lines.drop_last(), names), names, lines.last())
    }
}

/// Builds the cast table from the data rows of the cast file and the name
/// table.
#[verifier::loop_isolation(false)]
pub fn load_principals_map(data_lines: &Vec<String>, name_lookup: &StrMap<String>) -> (r: StrMap<
    Vec<String>,
>)
    ensures
        r.dview() == spec_principals_of(data_lines.deep_view(), name_lookup.dview()),
{
    let mut m: StrMap<Vec<String>> = StrMap::new();
    let mut i: usize = 0;
    while i < data_lines.len()
        invariant
            0 <= i <= data_lines@.len(),
            m.dview() == spec_principals_of(
                data_lines.deep_view().take(i as int),
                name_lookup.dview(),
            ),
        decreases data_lines@.len() - i,
    {
        proof {
            assert(data_lines.deep_view().take(i + 1).drop_last() =~= data_lines.deep_view().take(
                i as int,
            ));
            assert(data_lines.deep_view().take(i + 1).last() == data_lines.deep_view()[i as int]);
        }
        let line: &String = &data_lines[i];
        let fields = split_on(line.as_str(), '\t');
        if fields.len() > 2 {
            let key = crate::records::col_opt_string(&fields, 0);
            let person = crate::records::col_opt_string(&fields, 2);
            match (key, person) {
                (Some(k), Some(p)) => {
                    match name_lookup.get(p.as_str()) {
                        Some(nm) => {
                            let cur_opt = m.get(k.as_str());
                            let already = match cur_opt {
                                Some(v) => contains_string(v, nm.as_str()),
                                None => false,
                            };
                            if !already {
                                let ghost f = fields.deep_view();
                                let mut cur: Vec<String> = match m.get(k.as_str()) {
                                    Some(v) => clone_strings(v),
                                    None => Vec::new(),
                                };
                                let ghost cur0 = cur.deep_view();
                                proof {
                                    if m.dview().contains_key(f[0]) {
                                        assert(cur0 =~= m.dview()[f[0]]);
                                    } else {
                                        assert(cur0 =~= Seq::<Seq<char>>::empty());
                                    }
                                }
                                cur.push(nm.clone());
                                proof {
                                    assert(cur.deep_view() =~= cur0.push(nm@));
                                }
                                m.insert(k, cur);
                            }
                        },
                        None => {},
                    }
                },
                _ => {},
            }
        }
        i = i + 1;
    }
    proof {
        assert(data_lines.deep_view().take(data_lines@.len() as int) =~= data_lines.deep_view());
    }
    m
}

} // verus!
