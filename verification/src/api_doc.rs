//! The OpenAPI document that the schema logic produces, as plain values.

use vstd::prelude::*;
use indexmap::IndexMap;
use crate::idl_processor::variant_info::{VariantInfo, VariantView};
use crate::text::texts_of;

verus! {

/// The HTTP method under which a message is offered.
#[derive(Debug, Clone, Copy, PartialEq, Eq, Structural)]
pub enum HttpMethod {
    Get,
    Post,
}

/// The schema of a query parameter: a number (bounded below by zero when
/// unsigned) or a string.
#[derive(Debug, Clone, Copy, PartialEq, Eq, Structural)]
pub enum SchemaType {
    Number { unsigned: bool },
    Text,
}

/// A query parameter of an operation (style `form`, reserved characters not
/// allowed, no description, no example).
#[derive(Debug)]
pub struct QueryParameter {
    pub name: String,
    pub required: bool,
    pub schema: SchemaType,
}

/// The one response an operation documents: a JSON object under a status code.
#[derive(Debug)]
pub struct ResponseSpec {
    pub status: u16,
    pub description: String,
    pub content_type: String,
    pub schema_title: String,
}

/// An operation on a path.
#[derive(Debug)]
pub struct Operation {
    pub summary: String,
    pub description: String,
    pub tags: Vec<String>,
    pub parameters: Vec<QueryParameter>,
    pub response: ResponseSpec,
}

/// A path item: one operation under one method, with the variant it was made
/// from attached as the `x-variant` extension.
#[derive(Debug)]
pub struct PathEntry {
    pub method: HttpMethod,
    pub operation: Operation,
    pub variant: VariantInfo,
}

/// The whole document. `components` says whether an (empty) components
/// section is present; `x_wasm` is the `x-wasm` extension of the document.
#[derive(Debug)]
pub struct ApiDoc {
    pub openapi: String,
    pub title: String,
    pub description: Option<String>,
    pub version: String,
    pub x_wasm: Option<String>,
    pub paths: IndexMap<String, PathEntry>,
    pub components: bool,
}

/// The value of a `QueryParameter`.
pub struct QueryParameterView {
    pub name: Seq<char>,
    pub required: bool,
    pub schema: SchemaType,
}

/// The value of a `ResponseSpec`.
pub struct ResponseView {
    pub status: u16,
    pub description: Seq<char>,
    pub content_type: Seq<char>,
    pub schema_title: Seq<char>,
}

/// The value of an `Operation`.
pub struct OperationView {
    pub summary: Seq<char>,
    pub description: Seq<char>,
    pub tags: Seq<Seq<char>>,
    pub parameters: Seq<QueryParameterView>,
    pub response: ResponseView,
}

/// The value of a `PathEntry`.
pub struct PathEntryView {
    pub method: HttpMethod,
    pub operation: OperationView,
    pub variant: VariantView,
}

/// The value of an `ApiDoc`; `paths` lists the path items in document order.
pub struct ApiDocView {
    pub openapi: Seq<char>,
    pub title: Seq<char>,
    pub description: Option<Seq<char>>,
    pub version: Seq<char>,
    pub x_wasm: Option<Seq<char>>,
    pub paths: Seq<(Seq<char>, PathEntryView)>,
    pub components: bool,
}

impl View for QueryParameter {
    type V = QueryParameterView;

    open spec fn view(&self) -> QueryParameterView {
        QueryParameterView { name: self.name@, required: self.required, schema: self.schema }
    }
}

impl View for ResponseSpec {
    type V = ResponseView;

    open spec fn view(&self) -> ResponseView {
        ResponseView {
            status: self.status,
            description: self.description@,
            content_type: self.content_type@,
            schema_title: self.schema_title@,
        }
    }
}

/// The values of a list of query parameters.
pub open spec fn query_params_view(s: Seq<QueryParameter>) -> Seq<QueryParameterView> {
    s.map_values(|p: QueryParameter| p@)
}

impl View for Operation {
    type V = OperationView;

    open spec fn view(&self) -> OperationView {
        OperationView {
            summary: self.summary@,
            description: self.description@,
            tags: texts_of(self.tags@),
            parameters: query_params_view(self.parameters@),
            response: self.response@,
        }
    }
}

impl View for PathEntry {
    type V = PathEntryView;

    open spec fn view(&self) -> PathEntryView {
        PathEntryView { method: self.method, operation: self.operation@, variant: self.variant@ }
    }
}

/// What the path map holds, in its order: each path with its item.
pub uninterp spec fn path_entries(m: IndexMap<String, PathEntry>) -> Seq<(String, PathEntry)>;

/// The values of the path map's entries.
pub open spec fn paths_view(s: Seq<(String, PathEntry)>) -> Seq<(Seq<char>, PathEntryView)> {
    s.map_values(|e: (String, PathEntry)| (e.0@, e.1@))
}

/// The position of the first entry at or after `i` whose key is `k`.
pub open spec fn key_position<V>(s: Seq<(String, V)>, k: Seq<char>, i: int) -> Option<int>
    decreases s.len() - i,
{
    if i < 0 || i >= s.len() {
        None
    } else if s[i].0@ == k {
        Some(i)
    } else {
        key_position(s, k, i + 1)
    }
}

/// Inserting into an insertion-ordered map: a present key keeps its place
/// (and its stored key) and takes the new value; a new key goes last.
pub open spec fn ordered_insert<V>(s: Seq<(String, V)>, k: String, v: V) -> Seq<(String, V)> {
    match key_position(s, k@, 0) {
        Some(i) => s.update(i, (s[i].0, v)),
        None => s.push((k, v)),
    }
}

/// The same operation on entry values.
pub open spec fn ordered_insert_view(
    s: Seq<(Seq<char>, PathEntryView)>,
    k: Seq<char>,
    v: PathEntryView,
) -> Seq<(Seq<char>, PathEntryView)> {
    match view_key_position(s, k, 0) {
        Some(i) => s.update(i, (k, v)),
        None => s.push((k, v)),
    }
}

/// `key_position` on entry values.
pub open spec fn view_key_position(s: Seq<(Seq<char>, PathEntryView)>, k: Seq<char>, i: int) -> Option<int>
    decreases s.len() - i,
{
    if i < 0 || i >= s.len() {
        None
    } else if s[i].0 == k {
        Some(i)
    } else {
        view_key_position(s, k, i + 1)
    }
}

proof fn lemma_key_position_view(s: Seq<(String, PathEntry)>, k: Seq<char>, i: int)
    requires
        0 <= i <= s.len(),
    ensures
        key_position(s, k, i) == view_key_position(paths_view(s), k, i),
    decreases s.len() - i,
{
    if i < s.len() {
        assert(paths_view(s)[i].0 == s[i].0@);
        lemma_key_position_view(s, k, i + 1);
    }
}

proof fn lemma_key_position_found<V>(s: Seq<(String, V)>, k: Seq<char>, i: int)
    requires
        0 <= i,
    ensures
        key_position(s, k, i) matches Some(j) ==> i <= j < s.len() && s[j].0@ == k,
    decreases s.len() - i,
{
    if i < s.len() && s[i].0@ != k {
        lemma_key_position_found(s, k, i + 1);
    }
}

/// Inserting into the path map, seen through the entries' values.
pub proof fn lemma_ordered_insert_view(s: Seq<(String, PathEntry)>, k: String, v: PathEntry)
    ensures
        paths_view(ordered_insert(s, k, v)) == ordered_insert_view(paths_view(s), k@, v@),
{
    lemma_key_position_view(s, k@, 0);
    lemma_key_position_found(s, k@, 0);
    match key_position(s, k@, 0) {
        Some(i) => {
            assert(paths_view(s.update(i, (s[i].0, v))) =~= paths_view(s).update(i, (k@, v@)));
        },
        None => {
            assert(paths_view(s.push((k, v))) =~= paths_view(s).push((k@, v@)));
        },
    }
}

/// `IndexMap::new`: an empty map.
#[verifier::external_body]
pub(crate) fn new_path_map() -> (m: IndexMap<String, PathEntry>)
    ensures
        path_entries(m) == Seq::<(String, PathEntry)>::empty(),
{
    IndexMap::new()
}

/// `IndexMap::insert`: as its documentation says, a key already present
/// keeps its place and its stored key and takes the new value; a new key is
/// added last. Keys are told apart by their text (`String`'s `Eq`).
#[verifier::external_body]
pub(crate) fn insert_path(m: &mut IndexMap<String, PathEntry>, key: String, value: PathEntry)
    ensures
        path_entries(*final(m)) == ordered_insert(path_entries(*old(m)), key, value),
{
    m.insert(key, value);
}

impl View for ApiDoc {
    type V = ApiDocView;

    open spec fn view(&self) -> ApiDocView {
        ApiDocView {
            openapi: self.openapi@,
            title: self.title@,
            description: match self.description {
                Some(d) => Some(d@),
                None => None,
            },
            version: self.version@,
            x_wasm: match self.x_wasm {
                Some(w) => Some(w@),
                None => None,
            },
            paths: paths_view(path_entries(self.paths)),
            components: self.components,
        }
    }
}

/// `IndexMap` of the `indexmap` crate, carried as an opaque value.
#[verifier::external_type_specification]
#[verifier::external_body]
#[verifier::reject_recursive_types(K)]
#[verifier::reject_recursive_types(V)]
#[verifier::reject_recursive_types(S)]
pub struct ExIndexMap<K, V, S>(IndexMap<K, V, S>);

} // verus!
