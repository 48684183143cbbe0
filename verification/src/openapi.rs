//! The fragment registry and the assembly of the document.
//!
//! Route declarations hand their fragments to a registry as they are made.
//! When all routes are declared, the document is assembled once: from a base
//! document, the fragments that the caller adds, and last what the registry
//! has collected.

use crate::document::{
    lemma_document_merge_all_keyed_once, lemma_document_merge_keyed_once, Fragment, FragmentView,
    OperationView, SchemaView, SpecDocument, SpecDocumentView,
};
use crate::table::{
    first_wins, last_wins, lemma_put_all_concat, lemma_put_all_last_wins,
    lemma_put_all_merged, lemma_put_all_new_concat, lemma_put_all_new_first_wins,
    lemma_put_all_new_merged, lemma_put_all_of_distinct, models, put_all, put_all_new,
};
use vstd::prelude::*;

verus! {

/// The fragments that route declarations have registered, in the order in
/// which they came.
#[derive(Debug)]
pub struct FragmentRegistry {
    fragments: Vec<Fragment>,
}

impl View for FragmentRegistry {
    type V = Seq<FragmentView>;

    closed spec fn view(&self) -> Seq<FragmentView> {
        models(self.fragments@)
    }
}

impl FragmentRegistry {
    /// A registry that holds nothing.
    pub fn new() -> (registry: Self)
        ensures
            registry@ == Seq::<FragmentView>::empty(),
    {
        let registry = FragmentRegistry { fragments: Vec::new() };
        assert(registry@ =~= Seq::empty());
        registry
    }

    /// How many fragments are registered.
    pub fn len(&self) -> (count: usize)
        ensures
            count == self@.len(),
    {
        self.fragments.len()
    }
}

/// Registers a fragment, after those that are registered already.
pub fn add_route(registry: &mut FragmentRegistry, route: Fragment)
    ensures
        final(registry)@ == old(registry)@.push(route@),
{
    registry.fragments.push(route);
    assert(registry@ =~= old(registry)@.push(route@));
}

/// Empties the registry.
///
/// This is for test harnesses that build several applications in one
/// process: between two of them it keeps the fragments of the first out of
/// the document of the second.
pub fn clear_routes(registry: &mut FragmentRegistry)
    ensures
        final(registry)@ == Seq::<FragmentView>::empty(),
{
    registry.fragments.clear();
    assert(registry@ =~= Seq::empty());
}

/// All registered fragments merged into one, in the order in which they
/// were registered. Whatever was registered, the merged fragment has each
/// path and method and each schema name once. The registry keeps its
/// fragments: a second call gives the same.
pub fn get_merged_router(registry: &FragmentRegistry) -> (merged: Fragment)
    ensures
        merged@ == FragmentView::empty().merge_all(registry@),
        merged@.keyed_once(),
{
    let mut merged = Fragment::new();
    let mut next: usize = 0;
    while next < registry.fragments.len()
        invariant
            next <= registry.fragments.len(),
            merged@ == FragmentView::empty().merge_all(registry@.take(next as int)),
            merged@.keyed_once(),
        decreases registry.fragments.len() - next,
    {
        merged.merge(&registry.fragments[next]);
        proof {
            let taken = registry@.take(next + 1);
            assert(taken.drop_last() =~= registry@.take(next as int));
            assert(taken.last() == registry.fragments[next as int]@);
        }
        next += 1;
    }
    assert(registry@.take(registry.fragments.len() as int) =~= registry@);
    merged
}

/// Declares a documented route: registers the fragment `method_openapi`
/// and hands `method` back as it came, to be routed.
pub fn openapi<M>(registry: &mut FragmentRegistry, method: M, method_openapi: Fragment) -> (routable:
    M)
    ensures
        routable == method,
        final(registry)@ == old(registry)@.push(method_openapi@),
{
    add_route(registry, method_openapi);
    method
}

/// The document that a base, the caller's extra fragments and the
/// registered fragments assemble to: the base, or the empty shell where
/// there is none; then the extra fragments merged in, in their order; then
/// the merged registry.
pub open spec fn assembled(
    base: Option<SpecDocumentView>,
    extra: Seq<FragmentView>,
    registered: Seq<FragmentView>,
) -> SpecDocumentView {
    let start = match base {
        Some(document) => document,
        None => SpecDocumentView::empty(),
    };
    start.merge_all(extra).merge(FragmentView::empty().merge_all(registered))
}

/// The view of an optional document.
pub open spec fn document_view(document: Option<SpecDocument>) -> Option<SpecDocumentView> {
    match document {
        Some(document) => Some(document@),
        None => None,
    }
}

/// Whether a base document, if there is one, is keyed once.
pub open spec fn base_keyed_once(base: Option<SpecDocumentView>) -> bool {
    base matches Some(document) ==> document.keyed_once()
}

/// Assembling from a base that is keyed once, or from none, gives a
/// document that is keyed once.
pub proof fn lemma_assembled_keyed_once(
    base: Option<SpecDocumentView>,
    extra: Seq<FragmentView>,
    registered: Seq<FragmentView>,
)
    requires
        base_keyed_once(base),
    ensures
        assembled(base, extra, registered).keyed_once(),
{
    let start = match base {
        Some(document) => document,
        None => SpecDocumentView::empty(),
    };
    lemma_document_merge_all_keyed_once(start, extra);
    lemma_document_merge_keyed_once(
        start.merge_all(extra),
        FragmentView::empty().merge_all(registered),
    );
}

/// Assembles the document from the base, the extra fragments and the
/// registry. From a base that is keyed once, or from none, the document is
/// keyed once; a base that gives a path and method twice keeps its second
/// operation there.
pub fn assemble(
    base: Option<SpecDocument>,
    extra: &Vec<Fragment>,
    registry: &FragmentRegistry,
) -> (document: SpecDocument)
    ensures
        document@ == assembled(document_view(base), models(extra@), registry@),
        base_keyed_once(document_view(base)) ==> document@.keyed_once(),
{
    proof {
        if base_keyed_once(document_view(base)) {
            lemma_assembled_keyed_once(document_view(base), models(extra@), registry@);
        }
    }
    let mut document = match base {
        Some(document) => document,
        None => SpecDocument::new(),
    };
    document.merge_all(extra);
    let collected = get_merged_router(registry);
    document.merge(&collected);
    document
}

/// The operations of `fragments`, one fragment after the other.
pub open spec fn all_operations(fragments: Seq<FragmentView>) -> Seq<OperationView>
    decreases fragments.len(),
{
    if fragments.len() == 0 {
        Seq::empty()
    } else {
        all_operations(fragments.drop_last()) + fragments.last().operations
    }
}

/// The schemas of `fragments`, one fragment after the other.
pub open spec fn all_schemas(fragments: Seq<FragmentView>) -> Seq<SchemaView>
    decreases fragments.len(),
{
    if fragments.len() == 0 {
        Seq::empty()
    } else {
        all_schemas(fragments.drop_last()) + fragments.last().schemas
    }
}

/// Merging fragments one after the other is adding all their operations
/// and all their schemas in that order.
pub proof fn lemma_merge_all_flat(start: FragmentView, fragments: Seq<FragmentView>)
    ensures
        start.merge_all(fragments).operations == put_all(
            start.operations,
            all_operations(fragments),
        ),
        start.merge_all(fragments).schemas == put_all_new(start.schemas, all_schemas(fragments)),
    decreases fragments.len(),
{
    if fragments.len() > 0 {
        lemma_merge_all_flat(start, fragments.drop_last());
        lemma_put_all_concat(
            start.operations,
            all_operations(fragments.drop_last()),
            fragments.last().operations,
        );
        lemma_put_all_new_concat(
            start.schemas,
            all_schemas(fragments.drop_last()),
            fragments.last().schemas,
        );
    }
}

/// Merging fragments into a document one after the other is adding all
/// their operations and all their schemas in that order. Info block and
/// security schemes stay.
pub proof fn lemma_document_merge_all_flat(start: SpecDocumentView, fragments: Seq<FragmentView>)
    ensures
        start.merge_all(fragments) == (SpecDocumentView {
            operations: put_all(start.operations, all_operations(fragments)),
            schemas: put_all_new(start.schemas, all_schemas(fragments)),
            ..start
        }),
    decreases fragments.len(),
{
    if fragments.len() > 0 {
        lemma_document_merge_all_flat(start, fragments.drop_last());
        lemma_put_all_concat(
            start.operations,
            all_operations(fragments.drop_last()),
            fragments.last().operations,
        );
        lemma_put_all_new_concat(
            start.schemas,
            all_schemas(fragments.drop_last()),
            fragments.last().schemas,
        );
    }
}

/// The operations and schemas of two runs of fragments, one after the
/// other, are those of the first run and then those of the second.
pub proof fn lemma_all_of_concat(first: Seq<FragmentView>, second: Seq<FragmentView>)
    ensures
        all_operations(first + second) == all_operations(first) + all_operations(second),
        all_schemas(first + second) == all_schemas(first) + all_schemas(second),
    decreases second.len(),
{
    if second.len() == 0 {
        assert(first + second == first);
    } else {
        assert((first + second).drop_last() == first + second.drop_last());
        assert((first + second).last() == second.last());
        lemma_all_of_concat(first, second.drop_last());
    }
}

/// Assembling is merging into the base, one by one and in this order, the
/// extra fragments and then the registered ones: that the registry is
/// merged by itself first makes no difference.
pub proof fn lemma_assembled_one_by_one(
    base: Option<SpecDocumentView>,
    extra: Seq<FragmentView>,
    registered: Seq<FragmentView>,
)
    ensures
        assembled(base, extra, registered) == (match base {
            Some(document) => document,
            None => SpecDocumentView::empty(),
        }).merge_all(extra + registered),
{
    let start = match base {
        Some(document) => document,
        None => SpecDocumentView::empty(),
    };
    let with_extra = start.merge_all(extra);
    lemma_document_merge_all_flat(start, extra);
    lemma_document_merge_all_flat(start, extra + registered);
    lemma_merge_all_flat(FragmentView::empty(), registered);
    lemma_all_of_concat(extra, registered);
    lemma_put_all_merged(with_extra.operations, all_operations(registered));
    lemma_put_all_new_merged(with_extra.schemas, all_schemas(registered));
    lemma_put_all_concat(start.operations, all_operations(extra), all_operations(registered));
    lemma_put_all_new_concat(start.schemas, all_schemas(extra), all_schemas(registered));
}

/// Whatever is merged into a base in which no path and method and no
/// schema name occurs twice, in the assembled document
/// - no two operations are on the same path and method, and every path and
///   method of the base, the extra fragments and the registered ones has its
///   operation;
/// - each operation is the last on its path and method, the base coming
///   first, then the extra fragments, then the registered ones;
/// - the operations stand in the order in which their paths and methods
///   first came;
/// and the same holds of the schemas and their names, but that of two
/// schemas of one name the first stays. Without a base the same holds with
/// nothing in its place.
pub proof fn lemma_assembled_in_order(
    base: Option<SpecDocumentView>,
    extra: Seq<FragmentView>,
    registered: Seq<FragmentView>,
)
    requires
        base_keyed_once(base),
    ensures
        ({
            let start = match base {
                Some(document) => document,
                None => SpecDocumentView::empty(),
            };
            let document = assembled(base, extra, registered);
            &&& document.info == start.info
            &&& document.security_schemes == start.security_schemes
            &&& last_wins(
                document.operations,
                start.operations + all_operations(extra + registered),
            )
            &&& first_wins(document.schemas, start.schemas + all_schemas(extra + registered))
        }),
{
    let start = match base {
        Some(document) => document,
        None => SpecDocumentView::empty(),
    };
    lemma_assembled_one_by_one(base, extra, registered);
    lemma_document_merge_all_flat(start, extra + registered);
    lemma_put_all_of_distinct(start.operations);
    lemma_put_all_of_distinct(start.schemas);
    lemma_put_all_concat(Seq::empty(), start.operations, all_operations(extra + registered));
    lemma_put_all_new_concat(Seq::empty(), start.schemas, all_schemas(extra + registered));
    lemma_put_all_last_wins(start.operations + all_operations(extra + registered));
    lemma_put_all_new_first_wins(start.schemas + all_schemas(extra + registered));
}

/// Whatever fragments are registered, in the merged registry
/// - no two operations are on the same path and method, and every
///   registered path and method has its operation;
/// - each operation is the one that was registered last on its path and
///   method;
/// - the operations stand in the order in which their paths and methods
///   were first registered;
/// and the same holds of the schemas and their names, but that of two
/// schemas of one name the one registered first stays.
pub proof fn lemma_merged_in_registration_order(registered: Seq<FragmentView>)
    ensures
        last_wins(
            FragmentView::empty().merge_all(registered).operations,
            all_operations(registered),
        ),
        first_wins(FragmentView::empty().merge_all(registered).schemas, all_schemas(registered)),
{
    lemma_merge_all_flat(FragmentView::empty(), registered);
    lemma_put_all_last_wins(all_operations(registered));
    lemma_put_all_new_first_wins(all_schemas(registered));
}

/// With no extra fragments and nothing registered, the assembled document
/// is the base: its info block, and no operation that the base did not
/// have. Without a base it is the empty shell.
pub proof fn lemma_assembled_from_nothing(base: Option<SpecDocumentView>)
    ensures
        assembled(base, Seq::empty(), Seq::empty()) == match base {
            Some(document) => document,
            None => SpecDocumentView::empty(),
        },
{
}

/// What a registry holds after `routes` were registered in it, one after
/// the other.
pub open spec fn with_routes(
    registry: Seq<FragmentView>,
    routes: Seq<FragmentView>,
) -> Seq<FragmentView>
    decreases routes.len(),
{
    if routes.len() == 0 {
        registry
    } else {
        with_routes(registry, routes.drop_last()).push(routes.last())
    }
}

/// What was registered before the registry was emptied leaves no trace: an
/// emptied registry in which `routes` are registered holds `routes` and
/// nothing else, so it merges, and a document assembles from it, as if the
/// registry had never held anything before.
pub proof fn lemma_cleared_registry_forgets(
    routes: Seq<FragmentView>,
    base: Option<SpecDocumentView>,
    extra: Seq<FragmentView>,
)
    ensures
        with_routes(Seq::empty(), routes) == routes,
        FragmentView::empty().merge_all(with_routes(Seq::empty(), routes))
            == FragmentView::empty().merge_all(routes),
        assembled(base, extra, with_routes(Seq::empty(), routes)) == assembled(
            base,
            extra,
            routes,
        ),
    decreases routes.len(),
{
    if routes.len() > 0 {
        lemma_cleared_registry_forgets(routes.drop_last(), base, extra);
        assert(routes.drop_last().push(routes.last()) == routes);
    }
}

} // verus!
