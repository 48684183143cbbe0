//! The OpenAPI document of an application and the fragments it is merged
//! from.
//!
//! A fragment describes some routes: their operations, each on a path and a
//! method, and the schemas that those operations name. A document holds the
//! same for the whole application, with an info block and the security
//! schemes in front.
//!
//! The definitions of operations and schemas are carried as text and never
//! looked into. What is decided here is which definition stays when two meet:
//! - of two operations on the same path and method, the one merged later
//!   stays, in the place of the earlier one;
//! - of two schemas of the same name, the one merged first stays;
//! - a security scheme replaces the scheme that has its name.
//!
//! These rules are this library's own. The merge of
//! `utoipa::openapi::OpenApi` decides the other way for operations (what is
//! there stays) and keeps paths sorted, not in the order of registration, so
//! documents are merged here and turned into `utoipa`'s only to be served.
//!
//! The tables of a fragment or a document are plain vectors, and whoever
//! writes one by hand may give a key twice. `keyed_once` says that none
//! occurs twice; merging and putting schemes keep it, and what is merged
//! from nothing has it.

use crate::table::{
    distinct_keys, duplicate_entries, entry_of, has_key, lemma_entry_after_put_all,
    lemma_entry_after_put_all_new, lemma_found_both_ways, lemma_put_all_concat,
    lemma_put_all_distinct, lemma_put_all_merged, lemma_put_all_new_concat,
    lemma_put_all_new_distinct, lemma_put_all_new_merged, lemma_put_all_of_distinct,
    lemma_put_distinct, models, put, put_all, put_all_new, put_entries, put_entry,
    put_new_entries, Entry, Keyed,
};
use vstd::prelude::*;

verus! {

/// The HTTP method of an operation.
#[derive(Debug, Clone, Copy, PartialEq, Eq, Hash, Structural)]
pub enum HttpMethod {
    Get,
    Put,
    Post,
    Delete,
    Options,
    Head,
    Patch,
    Trace,
}

/// What one route does on one method.
#[derive(Debug, PartialEq, Eq)]
pub struct Operation {
    /// The path of the route, such as `/api/album/get_album`.
    pub path: String,
    pub method: HttpMethod,
    /// The operation's parameters and responses, as text.
    pub definition: String,
}

pub struct OperationView {
    pub path: Seq<char>,
    pub method: HttpMethod,
    pub definition: Seq<char>,
}

impl View for Operation {
    type V = OperationView;

    open spec fn view(&self) -> OperationView {
        OperationView { path: self.path@, method: self.method, definition: self.definition@ }
    }
}

/// An operation is found again by its path and method.
impl Keyed for OperationView {
    type Key = (Seq<char>, HttpMethod);

    open spec fn key(&self) -> (Seq<char>, HttpMethod) {
        (self.path, self.method)
    }
}

impl Entry for Operation {
    fn same_key(&self, other: &Self) -> (same: bool) {
        self.method == other.method && self.path == other.path
    }

    fn duplicate(&self) -> (copy: Self) {
        Operation {
            path: self.path.clone(),
            method: self.method,
            definition: self.definition.clone(),
        }
    }
}

impl Clone for Operation {
    fn clone(&self) -> (copy: Self)
        ensures
            copy@ == self@,
    {
        self.duplicate()
    }
}

impl Operation {
    pub fn new(path: &str, method: HttpMethod, definition: &str) -> (operation: Self)
        ensures
            operation@ == (OperationView { path: path@, method, definition: definition@ }),
    {
        Operation { path: path.to_owned(), method, definition: definition.to_owned() }
    }
}

/// A named schema that operations refer to.
#[derive(Debug, PartialEq, Eq)]
pub struct Schema {
    pub name: String,
    /// The schema's shape, as text.
    pub definition: String,
}

pub struct SchemaView {
    pub name: Seq<char>,
    pub definition: Seq<char>,
}

impl View for Schema {
    type V = SchemaView;

    open spec fn view(&self) -> SchemaView {
        SchemaView { name: self.name@, definition: self.definition@ }
    }
}

/// A schema is found again by its name.
impl Keyed for SchemaView {
    type Key = Seq<char>;

    open spec fn key(&self) -> Seq<char> {
        self.name
    }
}

impl Entry for Schema {
    fn same_key(&self, other: &Self) -> (same: bool) {
        self.name == other.name
    }

    fn duplicate(&self) -> (copy: Self) {
        Schema { name: self.name.clone(), definition: self.definition.clone() }
    }
}

impl Clone for Schema {
    fn clone(&self) -> (copy: Self)
        ensures
            copy@ == self@,
    {
        self.duplicate()
    }
}

impl Schema {
    pub fn new(name: &str, definition: &str) -> (schema: Self)
        ensures
            schema@ == (SchemaView { name: name@, definition: definition@ }),
    {
        Schema { name: name.to_owned(), definition: definition.to_owned() }
    }
}

/// Where a request carries an API key.
#[derive(Debug, Clone, Copy, PartialEq, Eq, Hash, Structural)]
pub enum ApiKeyLocation {
    Header,
    Query,
    Cookie,
}

/// How a request authenticates.
#[derive(Debug, PartialEq, Eq)]
pub enum SecurityScheme {
    /// HTTP authentication with a bearer token of the given format.
    HttpBearer { bearer_format: String },
    /// A key under the given name, in a header, a query parameter or a
    /// cookie.
    ApiKey { location: ApiKeyLocation, name: String },
}

pub enum SecuritySchemeView {
    HttpBearer { bearer_format: Seq<char> },
    ApiKey { location: ApiKeyLocation, name: Seq<char> },
}

impl View for SecurityScheme {
    type V = SecuritySchemeView;

    open spec fn view(&self) -> SecuritySchemeView {
        match self {
            SecurityScheme::HttpBearer { bearer_format } => SecuritySchemeView::HttpBearer {
                bearer_format: bearer_format@,
            },
            SecurityScheme::ApiKey { location, name } => SecuritySchemeView::ApiKey {
                location: *location,
                name: name@,
            },
        }
    }
}

impl Clone for SecurityScheme {
    fn clone(&self) -> (copy: Self)
        ensures
            copy@ == self@,
    {
        match self {
            SecurityScheme::HttpBearer { bearer_format } => SecurityScheme::HttpBearer {
                bearer_format: bearer_format.clone(),
            },
            SecurityScheme::ApiKey { location, name } => SecurityScheme::ApiKey {
                location: *location,
                name: name.clone(),
            },
        }
    }
}

/// A security scheme under the name by which operations refer to it.
#[derive(Debug, PartialEq, Eq)]
pub struct NamedScheme {
    pub name: String,
    pub scheme: SecurityScheme,
}

pub struct NamedSchemeView {
    pub name: Seq<char>,
    pub scheme: SecuritySchemeView,
}

impl View for NamedScheme {
    type V = NamedSchemeView;

    open spec fn view(&self) -> NamedSchemeView {
        NamedSchemeView { name: self.name@, scheme: self.scheme@ }
    }
}

/// A security scheme is found again by its name.
impl Keyed for NamedSchemeView {
    type Key = Seq<char>;

    open spec fn key(&self) -> Seq<char> {
        self.name
    }
}

impl Entry for NamedScheme {
    fn same_key(&self, other: &Self) -> (same: bool) {
        self.name == other.name
    }

    fn duplicate(&self) -> (copy: Self) {
        NamedScheme { name: self.name.clone(), scheme: self.scheme.clone() }
    }
}

impl Clone for NamedScheme {
    fn clone(&self) -> (copy: Self)
        ensures
            copy@ == self@,
    {
        self.duplicate()
    }
}

/// The operations and schemas that one or more route declarations
/// contribute.
#[derive(Debug, PartialEq, Eq)]
pub struct Fragment {
    pub operations: Vec<Operation>,
    pub schemas: Vec<Schema>,
}

pub struct FragmentView {
    pub operations: Seq<OperationView>,
    pub schemas: Seq<SchemaView>,
}

impl View for Fragment {
    type V = FragmentView;

    open spec fn view(&self) -> FragmentView {
        FragmentView { operations: models(self.operations@), schemas: models(self.schemas@) }
    }
}

impl FragmentView {
    /// The fragment that contributes nothing.
    pub open spec fn empty() -> FragmentView {
        FragmentView { operations: Seq::empty(), schemas: Seq::empty() }
    }

    /// This fragment with `other` merged into it: the operations of `other`
    /// replace those on the same path and method or come after the rest, in
    /// their order; its schemas come after the rest unless the name is
    /// taken.
    pub open spec fn merge(self, other: FragmentView) -> FragmentView {
        FragmentView {
            operations: put_all(self.operations, other.operations),
            schemas: put_all_new(self.schemas, other.schemas),
        }
    }

    /// This fragment with each of `others` merged into it, in their order.
    pub open spec fn merge_all(self, others: Seq<FragmentView>) -> FragmentView
        decreases others.len(),
    {
        if others.len() == 0 {
            self
        } else {
            self.merge_all(others.drop_last()).merge(others.last())
        }
    }

    /// Whether each path and method has one operation and each name one
    /// schema. A fragment as a route declaration writes it need not be so;
    /// one that was merged from nothing is.
    pub open spec fn keyed_once(self) -> bool {
        distinct_keys(self.operations) && distinct_keys(self.schemas)
    }
}

/// Merging keeps a fragment keyed once, whatever is merged into it.
pub proof fn lemma_fragment_merge_keyed_once(fragment: FragmentView, other: FragmentView)
    requires
        fragment.keyed_once(),
    ensures
        fragment.merge(other).keyed_once(),
{
    lemma_put_all_distinct(fragment.operations, other.operations);
    lemma_put_all_new_distinct(fragment.schemas, other.schemas);
}

/// Merging one fragment after the other keeps a fragment keyed once.
pub proof fn lemma_fragment_merge_all_keyed_once(fragment: FragmentView, others: Seq<FragmentView>)
    requires
        fragment.keyed_once(),
    ensures
        fragment.merge_all(others).keyed_once(),
    decreases others.len(),
{
    if others.len() > 0 {
        lemma_fragment_merge_all_keyed_once(fragment, others.drop_last());
        lemma_fragment_merge_keyed_once(fragment.merge_all(others.drop_last()), others.last());
    }
}

/// Merging is associative: to merge two fragments one after the other is
/// to merge the second into the first and then the result, where the first
/// of the two is keyed once.
pub proof fn lemma_merge_associative(
    fragment: FragmentView,
    first: FragmentView,
    second: FragmentView,
)
    requires
        first.keyed_once(),
    ensures
        fragment.merge(first).merge(second) == fragment.merge(first.merge(second)),
{
    lemma_put_all_of_distinct(first.operations);
    lemma_put_all_of_distinct(first.schemas);
    lemma_put_all_concat(Seq::empty(), first.operations, second.operations);
    lemma_put_all_new_concat(Seq::empty(), first.schemas, second.schemas);
    lemma_put_all_merged(fragment.operations, first.operations + second.operations);
    lemma_put_all_new_merged(fragment.schemas, first.schemas + second.schemas);
    lemma_put_all_concat(fragment.operations, first.operations, second.operations);
    lemma_put_all_new_concat(fragment.schemas, first.schemas, second.schemas);
}

/// Merging commutes path by path, but where the two fragments meet: a
/// path and method that only one of two fragments has gets the same
/// operation whichever of the two is merged into the other, and so does a
/// schema name. Where both have it, the operation of the fragment merged
/// last stays, and the schema of the fragment merged into.
pub proof fn lemma_merge_commutes_apart(left: FragmentView, right: FragmentView)
    requires
        left.keyed_once(),
        right.keyed_once(),
    ensures
        forall|key: (Seq<char>, HttpMethod)|
            !(has_key(left.operations, key) && has_key(right.operations, key)) ==> #[trigger] entry_of(
                left.merge(right).operations,
                key,
            ) == entry_of(right.merge(left).operations, key),
        forall|name: Seq<char>|
            !(has_key(left.schemas, name) && has_key(right.schemas, name)) ==> #[trigger] entry_of(
                left.merge(right).schemas,
                name,
            ) == entry_of(right.merge(left).schemas, name),
        forall|key: (Seq<char>, HttpMethod)|
            has_key(left.operations, key) && has_key(right.operations, key) ==> #[trigger] entry_of(
                left.merge(right).operations,
                key,
            ) == entry_of(right.operations, key),
        forall|name: Seq<char>|
            has_key(left.schemas, name) && has_key(right.schemas, name) ==> #[trigger] entry_of(
                left.merge(right).schemas,
                name,
            ) == entry_of(left.schemas, name),
{
    assert forall|key: (Seq<char>, HttpMethod)| #![trigger entry_of(left.merge(right).operations, key)]
        true implies {
        &&& !(has_key(left.operations, key) && has_key(right.operations, key)) ==> entry_of(
            left.merge(right).operations,
            key,
        ) == entry_of(right.merge(left).operations, key)
        &&& has_key(left.operations, key) && has_key(right.operations, key) ==> entry_of(
            left.merge(right).operations,
            key,
        ) == entry_of(right.operations, key)
    } by {
        lemma_entry_after_put_all(left.operations, right.operations, key);
        lemma_entry_after_put_all(right.operations, left.operations, key);
        lemma_found_both_ways(left.operations, key);
        lemma_found_both_ways(right.operations, key);
    }
    assert forall|name: Seq<char>| #![trigger entry_of(left.merge(right).schemas, name)]
        true implies {
        &&& !(has_key(left.schemas, name) && has_key(right.schemas, name)) ==> entry_of(
            left.merge(right).schemas,
            name,
        ) == entry_of(right.merge(left).schemas, name)
        &&& has_key(left.schemas, name) && has_key(right.schemas, name) ==> entry_of(
            left.merge(right).schemas,
            name,
        ) == entry_of(left.schemas, name)
    } by {
        lemma_entry_after_put_all_new(left.schemas, right.schemas, name);
        lemma_entry_after_put_all_new(right.schemas, left.schemas, name);
    }
}

impl Fragment {
    /// The fragment that contributes nothing.
    pub fn new() -> (fragment: Self)
        ensures
            fragment@ == FragmentView::empty(),
    {
        let fragment = Fragment { operations: Vec::new(), schemas: Vec::new() };
        assert(fragment@.operations =~= Seq::empty());
        assert(fragment@.schemas =~= Seq::empty());
        fragment
    }

    /// Merges `other` into this fragment. A fragment that is keyed once
    /// stays so.
    pub fn merge(&mut self, other: &Fragment)
        ensures
            final(self)@ == old(self)@.merge(other@),
            old(self)@.keyed_once() ==> final(self)@.keyed_once(),
    {
        put_entries(&mut self.operations, &other.operations);
        put_new_entries(&mut self.schemas, &other.schemas);
        proof {
            if old(self)@.keyed_once() {
                lemma_fragment_merge_keyed_once(old(self)@, other@);
            }
        }
    }
}

impl Clone for Fragment {
    fn clone(&self) -> (copy: Self)
        ensures
            copy@ == self@,
    {
        Fragment {
            operations: duplicate_entries(&self.operations),
            schemas: duplicate_entries(&self.schemas),
        }
    }
}

/// The info block of a document.
#[derive(Debug, PartialEq, Eq)]
pub struct Info {
    pub title: String,
    pub version: String,
    pub description: Option<String>,
}

pub struct InfoView {
    pub title: Seq<char>,
    pub version: Seq<char>,
    pub description: Option<Seq<char>>,
}

impl View for Info {
    type V = InfoView;

    open spec fn view(&self) -> InfoView {
        InfoView {
            title: self.title@,
            version: self.version@,
            description: match self.description {
                Some(text) => Some(text@),
                None => None,
            },
        }
    }
}

impl InfoView {
    /// The info block of a document that nobody has described: no title,
    /// no version, no description.
    pub open spec fn empty() -> InfoView {
        InfoView { title: Seq::empty(), version: Seq::empty(), description: None }
    }
}

impl Clone for Info {
    fn clone(&self) -> (copy: Self)
        ensures
            copy@ == self@,
    {
        Info {
            title: self.title.clone(),
            version: self.version.clone(),
            description: match &self.description {
                Some(text) => Some(text.clone()),
                None => None,
            },
        }
    }
}

/// The OpenAPI document of a whole application.
#[derive(Debug, PartialEq, Eq)]
pub struct SpecDocument {
    pub info: Info,
    pub operations: Vec<Operation>,
    pub schemas: Vec<Schema>,
    pub security_schemes: Vec<NamedScheme>,
}

pub struct SpecDocumentView {
    pub info: InfoView,
    pub operations: Seq<OperationView>,
    pub schemas: Seq<SchemaView>,
    pub security_schemes: Seq<NamedSchemeView>,
}

impl View for SpecDocument {
    type V = SpecDocumentView;

    open spec fn view(&self) -> SpecDocumentView {
        SpecDocumentView {
            info: self.info@,
            operations: models(self.operations@),
            schemas: models(self.schemas@),
            security_schemes: models(self.security_schemes@),
        }
    }
}

impl SpecDocumentView {
    /// The empty document shell: an empty info block and nothing else.
    pub open spec fn empty() -> SpecDocumentView {
        SpecDocumentView {
            info: InfoView::empty(),
            operations: Seq::empty(),
            schemas: Seq::empty(),
            security_schemes: Seq::empty(),
        }
    }

    /// This document with `fragment` merged into it, by the rules of
    /// `FragmentView::merge`. Info block and security schemes stay.
    pub open spec fn merge(self, fragment: FragmentView) -> SpecDocumentView {
        SpecDocumentView {
            operations: put_all(self.operations, fragment.operations),
            schemas: put_all_new(self.schemas, fragment.schemas),
            ..self
        }
    }

    /// This document with each of `fragments` merged into it, in their
    /// order.
    pub open spec fn merge_all(self, fragments: Seq<FragmentView>) -> SpecDocumentView
        decreases fragments.len(),
    {
        if fragments.len() == 0 {
            self
        } else {
            self.merge_all(fragments.drop_last()).merge(fragments.last())
        }
    }

    /// This document with `scheme` under its name: in the place of the
    /// scheme that had the name, or after the others.
    pub open spec fn with_security_scheme(self, scheme: NamedSchemeView) -> SpecDocumentView {
        SpecDocumentView { security_schemes: put(self.security_schemes, scheme), ..self }
    }

    /// Whether each path and method has one operation, each schema name one
    /// schema and each scheme name one security scheme. The empty shell is
    /// so, and merging and putting schemes keep a document so.
    pub open spec fn keyed_once(self) -> bool {
        &&& distinct_keys(self.operations)
        &&& distinct_keys(self.schemas)
        &&& distinct_keys(self.security_schemes)
    }
}

/// Merging keeps a document keyed once, whatever is merged into it.
pub proof fn lemma_document_merge_keyed_once(document: SpecDocumentView, fragment: FragmentView)
    requires
        document.keyed_once(),
    ensures
        document.merge(fragment).keyed_once(),
{
    lemma_put_all_distinct(document.operations, fragment.operations);
    lemma_put_all_new_distinct(document.schemas, fragment.schemas);
}

/// Merging one fragment after the other keeps a document keyed once.
pub proof fn lemma_document_merge_all_keyed_once(
    document: SpecDocumentView,
    fragments: Seq<FragmentView>,
)
    requires
        document.keyed_once(),
    ensures
        document.merge_all(fragments).keyed_once(),
    decreases fragments.len(),
{
    if fragments.len() > 0 {
        lemma_document_merge_all_keyed_once(document, fragments.drop_last());
        lemma_document_merge_keyed_once(
            document.merge_all(fragments.drop_last()),
            fragments.last(),
        );
    }
}

impl SpecDocument {
    /// The empty document shell.
    pub fn new() -> (document: Self)
        ensures
            document@ == SpecDocumentView::empty(),
    {
        let document = SpecDocument {
            info: Info { title: String::new(), version: String::new(), description: None },
            operations: Vec::new(),
            schemas: Vec::new(),
            security_schemes: Vec::new(),
        };
        assert(document@.operations =~= Seq::empty());
        assert(document@.schemas =~= Seq::empty());
        assert(document@.security_schemes =~= Seq::empty());
        document
    }

    /// Merges `fragment` into this document. A document that is keyed once
    /// stays so.
    pub fn merge(&mut self, fragment: &Fragment)
        ensures
            final(self)@ == old(self)@.merge(fragment@),
            old(self)@.keyed_once() ==> final(self)@.keyed_once(),
    {
        put_entries(&mut self.operations, &fragment.operations);
        put_new_entries(&mut self.schemas, &fragment.schemas);
        proof {
            if old(self)@.keyed_once() {
                lemma_document_merge_keyed_once(old(self)@, fragment@);
            }
        }
    }

    /// Merges each of `fragments` into this document, in their order. A
    /// document that is keyed once stays so.
    pub fn merge_all(&mut self, fragments: &Vec<Fragment>)
        ensures
            final(self)@ == old(self)@.merge_all(models(fragments@)),
            old(self)@.keyed_once() ==> final(self)@.keyed_once(),
    {
        proof {
            if old(self)@.keyed_once() {
                lemma_document_merge_all_keyed_once(old(self)@, models(fragments@));
            }
        }
        let mut next: usize = 0;
        while next < fragments.len()
            invariant
                next <= fragments.len(),
                self@ == old(self)@.merge_all(models(fragments@).take(next as int)),
            decreases fragments.len() - next,
        {
            self.merge(&fragments[next]);
            proof {
                let taken = models(fragments@).take(next + 1);
                assert(taken.drop_last() =~= models(fragments@).take(next as int));
                assert(taken.last() == fragments[next as int]@);
            }
            next += 1;
        }
        assert(models(fragments@).take(fragments.len() as int) =~= models(fragments@));
    }

    /// Puts `scheme` under `name` among the security schemes. A document
    /// that is keyed once stays so.
    pub fn add_security_scheme(&mut self, name: &str, scheme: SecurityScheme)
        ensures
            final(self)@ == old(self)@.with_security_scheme(
                NamedSchemeView { name: name@, scheme: scheme@ },
            ),
            old(self)@.keyed_once() ==> final(self)@.keyed_once(),
    {
        put_entry(&mut self.security_schemes, NamedScheme { name: name.to_owned(), scheme });
        proof {
            if old(self)@.keyed_once() {
                lemma_put_distinct(
                    old(self)@.security_schemes,
                    NamedSchemeView { name: name@, scheme: scheme@ },
                );
            }
        }
    }
}

impl Clone for SpecDocument {
    fn clone(&self) -> (copy: Self)
        ensures
            copy@ == self@,
    {
        SpecDocument {
            info: self.info.clone(),
            operations: duplicate_entries(&self.operations),
            schemas: duplicate_entries(&self.schemas),
            security_schemes: duplicate_entries(&self.security_schemes),
        }
    }
}

} // verus!
