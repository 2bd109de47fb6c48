//! Tests of the cross-reference builders, the document builders, and the
//! dataset file naming.

use imdb_rs::datasets::DatasetFile;
use imdb_rs::docs::{build_title_doc, document_to_name_result, document_to_title_result, split_csv_list};
use imdb_rs::numeric::ln_scaled;
use imdb_rs::records::{parse_name_record, parse_title_record};
use imdb_rs::rows::split_on;
use imdb_rs::strmap::StrMap;
use imdb_rs::xref::{load_aka_map, load_name_map, load_principals_map, load_ratings_map};

fn lines(raw: &[&str]) -> Vec<String> {
    raw.iter().map(|s| s.to_string()).collect()
}

#[test]
fn ratings_map_skips_bad_rows_and_keeps_the_last_binding() {
    let data = lines(&[
        "tt1\t8.3\t1000",
        "tt2\t\\N\t50",
        "\\N\t7.0\t10",
        "tt3\t6.0",
        "tt1\t7.5\t2000",
    ]);
    let m = load_ratings_map(&data);
    assert_eq!(m.get("tt1"), Some(&(75, 2000)));
    assert_eq!(m.get("tt2"), None);
    assert_eq!(m.get("tt3"), None);
    assert_eq!(m.get("\\N"), None);
}

#[test]
fn name_map_resolves_person_keys() {
    let data = lines(&["nm1\tKeanu Reeves\t1964", "nm2\t\\N", "\\N\tNobody"]);
    let m = load_name_map(&data);
    assert_eq!(m.get("nm1").map(String::as_str), Some("Keanu Reeves"));
    assert_eq!(m.get("nm2"), None);
}

#[test]
fn aka_map_collects_titles_in_order() {
    let data = lines(&[
        "tt1\t1\tMatrix",
        "tt1\t2\tLa matrice",
        "tt1\t3\t\\N",
        "tt2\t1\tOther",
    ]);
    let m = load_aka_map(&data);
    let akas = m.get("tt1").expect("akas for tt1");
    assert_eq!(akas, &vec!["Matrix".to_string(), "La matrice".to_string()]);
}

#[test]
fn principals_map_resolves_and_deduplicates_names() {
    let names = lines(&["nm1\tKeanu Reeves", "nm2\tCarrie-Anne Moss"]);
    let name_lookup = load_name_map(&names);
    let data = lines(&[
        "tt1\t1\tnm1\tactor",
        "tt1\t2\tnm2\tactress",
        "tt1\t3\tnm1\tproducer",
        "tt1\t4\tnm9\tactor",
    ]);
    let m = load_principals_map(&data, &name_lookup);
    let cast = m.get("tt1").expect("cast for tt1");
    assert_eq!(
        cast,
        &vec!["Keanu Reeves".to_string(), "Carrie-Anne Moss".to_string()]
    );
}

#[test]
fn built_document_merges_lookups_and_deduplicates_aliases() {
    let fields = split_on(
        "tt1\tmovie\tThe Matrix\tThe Matrix\t0\t1999\t\\N\t136\tAction,Sci-Fi",
        '\t',
    );
    let rec = parse_title_record(&fields).expect("valid row");
    let akas = vec![
        "Matrix".to_string(),
        "The Matrix".to_string(),
        "Matrix".to_string(),
        "La matrice".to_string(),
    ];
    let cast = vec!["Keanu Reeves".to_string()];
    let doc = build_title_doc(rec, Some((87, 1_900_000)), Some(&akas), Some(&cast));
    assert_eq!(doc.tconst, "tt1");
    assert_eq!(doc.average_rating_tenths, Some(87));
    assert_eq!(doc.num_votes, Some(1_900_000));
    // The original name equals the primary one, so the alias list starts
    // with the primary name alone; each alternate title appears once; the
    // cast names follow.
    assert_eq!(
        doc.search_titles,
        vec![
            "The Matrix".to_string(),
            "Matrix".to_string(),
            "La matrice".to_string(),
            "Keanu Reeves".to_string(),
        ]
    );
}

#[test]
fn built_document_without_lookups_keeps_fields_absent() {
    let fields = split_on("tt9\tshort\tTiny\tKlein\t0\t\\N\t\\N\t5\t\\N", '\t');
    let rec = parse_title_record(&fields).expect("valid row");
    let doc = build_title_doc(rec, None, None, None);
    assert_eq!(doc.average_rating_tenths, None);
    assert_eq!(doc.num_votes, None);
    assert_eq!(
        doc.search_titles,
        vec!["Tiny".to_string(), "Klein".to_string()]
    );
    let served = document_to_title_result(&doc);
    assert_eq!(served.tconst, "tt9");
    assert_eq!(served.genres, None);
    assert_eq!(served.average_rating_tenths, None);
    assert_eq!(served.score_micro, None);
}

#[test]
fn served_person_splits_stored_lists() {
    let fields = split_on("nm1\tKeanu Reeves\t1964\t\\N\tactor, producer ,\ttt1,tt2", '\t');
    let rec = parse_name_record(&fields).expect("valid row");
    let served = document_to_name_result(&rec);
    assert_eq!(served.nconst, "nm1");
    assert_eq!(
        served.primary_profession,
        Some(vec!["actor".to_string(), "producer".to_string()])
    );
    assert_eq!(
        served.known_for_titles,
        Some(vec!["tt1".to_string(), "tt2".to_string()])
    );
}

#[test]
fn csv_list_trims_and_drops_empty_pieces() {
    let items = split_csv_list(" a , ,b,");
    assert_eq!(items, vec!["a".to_string(), "b".to_string()]);
    let empty = split_csv_list("");
    assert_eq!(empty.len(), 0);
}

#[test]
fn string_map_later_binding_wins() {
    let mut m: StrMap<i64> = StrMap::new();
    assert_eq!(m.get("k"), None);
    m.insert("k".to_string(), 1);
    m.insert("k".to_string(), 2);
    m.insert("other".to_string(), 3);
    assert_eq!(m.get("k"), Some(&2));
    assert_eq!(m.get("other"), Some(&3));
    assert!(m.contains_key("k"));
    assert!(!m.contains_key("missing"));
}

#[test]
fn dataset_file_paths_follow_the_data_directory() {
    let f = DatasetFile::new("data", "title.basics.tsv.gz");
    assert_eq!(f.name, "title.basics.tsv.gz");
    assert_eq!(f.gz_path, "data/title.basics.tsv.gz");
    assert_eq!(f.tsv_path, "data/title.basics.tsv");
}

#[test]
fn fixed_point_log_hits_the_powers_of_two() {
    assert_eq!(ln_scaled(1), 0);
    assert_eq!(ln_scaled(2), 693_147);
    assert_eq!(ln_scaled(1024), 6_931_470);
    assert!(ln_scaled(1000) < ln_scaled(1001));
}
