//! The trusted boundary to the full-text engine (tantivy) and to the
//! clock.  Everything here is a declaration of an outside type or a thin
//! wrapper around one outside call; the engine's behaviour — what matches,
//! how lexical scores arise — is not modelled.  Scores cross this boundary
//! in milli units so that no floating-point value enters the library.

use vstd::prelude::*;
use chrono::Datelike;
use std::ops::Bound;
use tantivy::collector::TopDocs;
use tantivy::query::{AllQuery, BooleanQuery, Occur, RangeQuery, TermQuery};
use tantivy::schema::{NumericOptions, STORED, STRING, TEXT};
use tantivy::{Order, ReloadPolicy, Term};

verus! {

#[verifier::external_type_specification]
#[verifier::external_body]
pub struct ExSchema(tantivy::schema::Schema);

#[verifier::external_type_specification]
#[verifier::external_body]
pub struct ExSchemaBuilder(tantivy::schema::SchemaBuilder);

#[verifier::external_type_specification]
#[verifier::external_body]
pub struct ExField(tantivy::schema::Field);

#[verifier::external_type_specification]
#[verifier::external_body]
pub struct ExTantivyDocument(tantivy::schema::TantivyDocument);

#[verifier::external_type_specification]
#[verifier::external_body]
pub struct ExIndex(tantivy::Index);

#[verifier::external_type_specification]
#[verifier::external_body]
pub struct ExIndexReader(tantivy::IndexReader);

#[verifier::external_type_specification]
#[verifier::external_body]
pub struct ExSearcher(tantivy::Searcher);

#[verifier::external_type_specification]
#[verifier::external_body]
pub struct ExQueryParser(tantivy::query::QueryParser);

#[verifier::external_type_specification]
#[verifier::external_body]
pub struct ExDocAddress(tantivy::DocAddress);

/// The engine's writer handle.  Its type is generic over an outside trait
/// and cannot be declared to the verifier, so it rides inside this opaque
/// holder.
#[verifier::external_body]
pub struct EngineWriter {
    inner: tantivy::IndexWriter<tantivy::schema::TantivyDocument>,
}

/// A composed engine query.  The engine's query values are trait objects,
/// which cannot be declared to the verifier, so they ride inside this
/// opaque holder.
#[verifier::external_body]
pub struct EngineQuery {
    inner: Box<dyn tantivy::query::Query>,
}

/// Relies on `tantivy::schema::Schema::builder`.
#[verifier::external_body]
pub fn new_schema_builder() -> tantivy::schema::SchemaBuilder {
    tantivy::schema::Schema::builder()
}

/// Relies on `SchemaBuilder::add_text_field`: registers an exact-match,
/// stored string field under `name`.
#[verifier::external_body]
pub fn add_keyword_field(b: &mut tantivy::schema::SchemaBuilder, name: &str) {
    b.add_text_field(name, STRING | STORED);
}

/// Relies on `SchemaBuilder::add_text_field`: registers an analyzed,
/// stored text field under `name`.
#[verifier::external_body]
pub fn add_text_field(b: &mut tantivy::schema::SchemaBuilder, name: &str) {
    b.add_text_field(name, TEXT | STORED);
}

/// Relies on `SchemaBuilder::add_text_field`: registers an analyzed,
/// unstored text field under `name`, for recall only.
#[verifier::external_body]
pub fn add_search_field(b: &mut tantivy::schema::SchemaBuilder, name: &str) {
    b.add_text_field(name, TEXT);
}

/// Relies on `SchemaBuilder::add_i64_field`: registers an indexed, stored
/// integer field with a columnar fast path under `name`.
#[verifier::external_body]
pub fn add_numeric_field(b: &mut tantivy::schema::SchemaBuilder, name: &str) {
    b.add_i64_field(name, NumericOptions::default().set_indexed().set_stored().set_fast());
}

/// Relies on `SchemaBuilder::build`.
#[verifier::external_body]
pub fn finish_schema(b: tantivy::schema::SchemaBuilder) -> tantivy::schema::Schema {
    b.build()
}

/// Relies on `Schema::get_field`: the handle of the field registered
/// under `name`, if any.
#[verifier::external_body]
pub fn schema_field(s: &tantivy::schema::Schema, name: &str) -> Option<tantivy::schema::Field> {
    s.get_field(name).ok()
}

/// Relies on `Index::create_in_dir`; the directory must exist and hold no
/// index yet.
#[verifier::external_body]
pub fn create_index_in_dir(dir: &str, s: tantivy::schema::Schema) -> Result<tantivy::Index, String> {
    tantivy::Index::create_in_dir(dir, s).map_err(|e| e.to_string())
}

/// Relies on `Index::open_in_dir`.
#[verifier::external_body]
pub fn open_index_in_dir(dir: &str) -> Result<tantivy::Index, String> {
    tantivy::Index::open_in_dir(dir).map_err(|e| e.to_string())
}

/// Relies on `Index::create_in_ram`.
#[verifier::external_body]
pub fn create_index_in_ram(s: tantivy::schema::Schema) -> tantivy::Index {
    tantivy::Index::create_in_ram(s)
}

/// Relies on `Index::schema`.
#[verifier::external_body]
pub fn index_schema(ix: &tantivy::Index) -> tantivy::schema::Schema {
    ix.schema()
}

/// Relies on `Index::reader_builder`: a reader that picks up newly
/// committed segments shortly after each commit.
#[verifier::external_body]
pub fn make_reader(ix: &tantivy::Index) -> Result<tantivy::IndexReader, String> {
    ix.reader_builder().reload_policy(ReloadPolicy::OnCommitWithDelay).try_into().map_err(
        |e: tantivy::TantivyError| e.to_string(),
    )
}

/// Relies on `Index::writer`: a single-segment writer with the given heap
/// budget; the engine rejects budgets outside its supported range.
#[verifier::external_body]
pub fn make_writer(ix: &tantivy::Index, heap_bytes: usize) -> Result<EngineWriter, String> {
    match ix.writer(heap_bytes) {
        Ok(w) => Ok(EngineWriter { inner: w }),
        Err(e) => Err(e.to_string()),
    }
}

/// Relies on `IndexWriter::add_document`.
#[verifier::external_body]
pub fn add_document(w: &EngineWriter, d: tantivy::schema::TantivyDocument) -> Result<u64, String> {
    w.inner.add_document(d).map_err(|e| e.to_string())
}

/// Relies on `IndexWriter::commit`: makes everything added so far
/// visible to future readers.
#[verifier::external_body]
pub fn commit_writer(w: &mut EngineWriter) -> Result<u64, String> {
    w.inner.commit().map_err(|e| e.to_string())
}

/// Relies on `TantivyDocument::default`: a fresh, empty document.
#[verifier::external_body]
pub fn new_document() -> tantivy::schema::TantivyDocument {
    tantivy::schema::TantivyDocument::default()
}

/// Relies on `TantivyDocument::add_text`.
#[verifier::external_body]
pub fn doc_add_text(d: &mut tantivy::schema::TantivyDocument, f: tantivy::schema::Field, v: &str) {
    d.add_text(f, v);
}

/// Relies on `TantivyDocument::add_i64`.
#[verifier::external_body]
pub fn doc_add_i64(d: &mut tantivy::schema::TantivyDocument, f: tantivy::schema::Field, v: i64) {
    d.add_i64(f, v);
}

/// Relies on `QueryParser::for_index` with the given default fields.
#[verifier::external_body]
pub fn make_query_parser(
    ix: &tantivy::Index,
    fields: Vec<tantivy::schema::Field>,
) -> tantivy::query::QueryParser {
    tantivy::query::QueryParser::for_index(ix, fields)
}

/// Relies on `QueryParser::set_field_boost`; the weight arrives as the
/// bit pattern of the engine's score type and is handed on unchanged.
#[verifier::external_body]
pub fn set_field_boost_raw(
    p: &mut tantivy::query::QueryParser,
    f: tantivy::schema::Field,
    weight_bits: u32,
) {
    p.set_field_boost(f, tantivy::Score::from_bits(weight_bits));
}

/// Relies on `QueryParser::set_field_fuzzy`: edit-distance tolerance for
/// terms against this field.
#[verifier::external_body]
pub fn set_field_fuzzy(
    p: &mut tantivy::query::QueryParser,
    f: tantivy::schema::Field,
    prefix: bool,
    distance: u8,
    transpose_cost_one: bool,
) {
    p.set_field_fuzzy(f, prefix, distance, transpose_cost_one);
}

/// Relies on `QueryParser::parse_query`: the engine decides what parses;
/// its rejection comes back as the error text.
#[verifier::external_body]
pub fn parse_user_query(p: &tantivy::query::QueryParser, text: &str) -> Result<
    EngineQuery,
    String,
> {
    match p.parse_query(text) {
        Ok(q) => Ok(EngineQuery { inner: q }),
        Err(e) => Err(e.to_string()),
    }
}

/// Relies on `TermQuery::new` over `Term::from_field_text`: matches
/// documents holding exactly `value` in `f`.
#[verifier::external_body]
pub fn term_query(f: tantivy::schema::Field, value: &str) -> EngineQuery {
    EngineQuery {
        inner: Box::new(
            TermQuery::new(
                Term::from_field_text(f, value),
                tantivy::schema::IndexRecordOption::Basic,
            ),
        ),
    }
}

/// Relies on `RangeQuery::new`: an inclusive range over an integer field;
/// an unset bound is unbounded on that side.
#[verifier::external_body]
pub fn range_query_i64(
    f: tantivy::schema::Field,
    min: Option<i64>,
    max: Option<i64>,
) -> EngineQuery {
    let lower = match min {
        Some(v) => Bound::Included(Term::from_field_i64(f, v)),
        None => Bound::Unbounded,
    };
    let upper = match max {
        Some(v) => Bound::Included(Term::from_field_i64(f, v)),
        None => Bound::Unbounded,
    };
    EngineQuery { inner: Box::new(RangeQuery::new(lower, upper)) }
}

/// Relies on `BooleanQuery::from`: every sub-query is required.
#[verifier::external_body]
pub fn all_must(subs: Vec<EngineQuery>) -> EngineQuery {
    let clauses: Vec<(Occur, Box<dyn tantivy::query::Query>)> = subs.into_iter().map(
        |q| (Occur::Must, q.inner),
    ).collect();
    EngineQuery { inner: Box::new(BooleanQuery::from(clauses)) }
}

/// Relies on `BooleanQuery::from`: at least one sub-query must match.
#[verifier::external_body]
pub fn any_should(subs: Vec<EngineQuery>) -> EngineQuery {
    let clauses: Vec<(Occur, Box<dyn tantivy::query::Query>)> = subs.into_iter().map(
        |q| (Occur::Should, q.inner),
    ).collect();
    EngineQuery { inner: Box::new(BooleanQuery::from(clauses)) }
}

/// Relies on `AllQuery`: matches every document.
#[verifier::external_body]
pub fn match_all() -> EngineQuery {
    EngineQuery { inner: Box::new(AllQuery) }
}

/// Relies on `IndexReader::searcher`: a read-only snapshot; queries
/// running on it are unaffected by later commits.
#[verifier::external_body]
pub fn searcher_of(r: &tantivy::IndexReader) -> tantivy::Searcher {
    r.searcher()
}

/// Relies on `Searcher::search` with `TopDocs::with_limit`, which panics
/// on a zero limit and returns at most `limit` hits, best lexical score
/// first; scores are handed on in milli units, which keeps their order.
#[verifier::external_body]
pub fn search_by_score(s: &tantivy::Searcher, q: &EngineQuery, limit: usize) -> (r: Result<
    Vec<(u64, tantivy::DocAddress)>,
    String,
>)
    requires
        limit >= 1,
    ensures
        r matches Ok(hits) ==> hits@.len() <= limit,
        r matches Ok(hits) ==> forall|i: int, j: int|
            0 <= i < j < hits@.len() ==> (#[trigger] hits@[i]).0 >= (#[trigger] hits@[j]).0,
{
    match s.search(&q.inner, &TopDocs::with_limit(limit).order_by_score()) {
        Ok(hits) => Ok(
            hits.into_iter().map(
                |(sc, a)| ((sc * tantivy::Score::from_bits(0x447A_0000)) as u64, a),
            ).collect(),
        ),
        Err(e) => Err(e.to_string()),
    }
}

/// Relies on `Searcher::search` with `TopDocs::order_by_fast_field` in
/// descending order; `TopDocs::with_limit` panics on a zero limit.  A
/// document without a value in the fast field reports none.
#[verifier::external_body]
pub fn search_by_i64_field_desc(
    s: &tantivy::Searcher,
    q: &EngineQuery,
    limit: usize,
    field_name: &str,
) -> (r: Result<Vec<(Option<i64>, tantivy::DocAddress)>, String>)
    requires
        limit >= 1,
    ensures
        r matches Ok(hits) ==> hits@.len() <= limit,
{
    let collector = TopDocs::with_limit(limit).order_by_fast_field::<i64>(field_name, Order::Desc);
    s.search(&q.inner, &collector).map_err(|e| e.to_string())
}

/// Relies on `Searcher::search` with `TopDocs::order_by_fast_field` in
/// ascending order; `TopDocs::with_limit` panics on a zero limit.
#[verifier::external_body]
pub fn search_by_i64_field_asc(
    s: &tantivy::Searcher,
    q: &EngineQuery,
    limit: usize,
    field_name: &str,
) -> (r: Result<Vec<(Option<i64>, tantivy::DocAddress)>, String>)
    requires
        limit >= 1,
    ensures
        r matches Ok(hits) ==> hits@.len() <= limit,
{
    let collector = TopDocs::with_limit(limit).order_by_fast_field::<i64>(field_name, Order::Asc);
    s.search(&q.inner, &collector).map_err(|e| e.to_string())
}

/// Relies on `Searcher::doc`: the stored fields of one hit.
#[verifier::external_body]
pub fn fetch_document(s: &tantivy::Searcher, a: &tantivy::DocAddress) -> Result<
    tantivy::schema::TantivyDocument,
    String,
> {
    s.doc::<tantivy::schema::TantivyDocument>(*a).map_err(|e| e.to_string())
}

/// Relies on `TantivyDocument::get_first`: the first stored integer under
/// `field`, if any.
#[verifier::external_body]
pub fn get_first_i64(
    doc: &tantivy::schema::TantivyDocument,
    field: tantivy::schema::Field,
) -> Option<i64> {
    doc.get_first(field).and_then(|value| match tantivy::schema::OwnedValue::from(value) {
        tantivy::schema::OwnedValue::I64(v) => Some(v),
        tantivy::schema::OwnedValue::U64(v) => i64::try_from(v).ok(),
        _ => None,
    })
}

/// Relies on `std::path::Path::exists`: whether the engine's marker file
/// is present under `index_dir`; the answer depends on what is on disk.
#[verifier::external_body]
pub fn index_exists(index_dir: &str) -> bool {
    std::path::Path::new(index_dir).join("meta.json").exists()
}

/// Relies on `chrono::Utc::now` and `Datelike::year`: the clock's current
/// year, whatever it is when asked.
#[verifier::external_body]
pub fn current_year() -> i64 {
    chrono::Utc::now().year() as i64
}

} // verus!
