//! The published document and the endpoints that expose it.
//!
//! The assembled document is published once, into a slot that keeps the
//! first document it is given. The endpoints are a plan: for each configured
//! visualizer the URL of its viewer and the URLs under which the document
//! is served as JSON and as YAML. Mounting them on a router is left to the
//! application.

use crate::config::{
    configured, entry_view, kind_of, lemma_configured_well_placed, placed, text_of, url_of,
    OpenAPIConfig, OpenAPIConfigView, OpenAPIType, OpenAPITypeView, VisualizerKind,
};
use crate::document::{Fragment, FragmentView, SpecDocument, SpecDocumentView};
use crate::once::{spec_write, WriteOnce};
use crate::raw::RawSettingsView;
use crate::openapi::{
    assemble, assembled, base_keyed_once, document_view, FragmentRegistry,
};
use crate::table::models;
use vstd::prelude::*;

verus! {

/// What an endpoint serves.
#[derive(Debug, Clone, Copy, PartialEq, Eq, Hash, Structural)]
pub enum Content {
    /// The interactive viewer of a visualizer, showing the document.
    Viewer(VisualizerKind),
    /// The document as JSON.
    Json,
    /// The document as YAML.
    Yaml,
}

/// A `GET` route to mount.
#[derive(Debug, PartialEq, Eq)]
pub struct Endpoint {
    pub url: String,
    pub content: Content,
}

pub struct EndpointView {
    pub url: Seq<char>,
    pub content: Content,
}

impl View for Endpoint {
    type V = EndpointView;

    open spec fn view(&self) -> EndpointView {
        EndpointView { url: self.url@, content: self.content }
    }
}

impl Clone for Endpoint {
    fn clone(&self) -> (copy: Self)
        ensures
            copy@ == self@,
    {
        Endpoint { url: self.url.clone(), content: self.content }
    }
}

/// Publishes the assembled document. The first document that is published
/// stays; a later one is dropped. Hands back the published document.
pub fn set_openapi_spec(slot: &mut WriteOnce<SpecDocument>, api: SpecDocument) -> (published:
    &SpecDocument)
    ensures
        final(slot)@ == spec_write(old(slot)@, api),
        final(slot)@ == Some(*published),
{
    slot.get_or_init(api)
}

/// Assembles the document from the base, the extra fragments and the
/// registry, and publishes it. Where a document is published already, that
/// one stays and the assembled one is dropped, however the two differ.
/// Hands back the published document.
pub fn assemble_once<'a>(
    slot: &'a mut WriteOnce<SpecDocument>,
    base: Option<SpecDocument>,
    extra: &Vec<Fragment>,
    registry: &FragmentRegistry,
) -> (published: &'a SpecDocument)
    ensures
        document_view(final(slot)@) == spec_write(
            document_view(old(slot)@),
            assembled(document_view(base), models(extra@), registry@),
        ),
        old(slot)@ is Some ==> final(slot)@ == old(slot)@,
        final(slot)@ == Some(*published),
        old(slot)@ is None && base_keyed_once(document_view(base)) ==> published@.keyed_once(),
{
    set_openapi_spec(slot, assemble(base, extra, registry))
}

/// Assembling twice publishes once: whatever the second assembly is made
/// from, the published document after it is the one that the first
/// assembly left.
pub proof fn lemma_assembled_once(
    published: Option<SpecDocumentView>,
    base: Option<SpecDocumentView>,
    extra: Seq<FragmentView>,
    registered: Seq<FragmentView>,
    later_base: Option<SpecDocumentView>,
    later_extra: Seq<FragmentView>,
    later_registered: Seq<FragmentView>,
)
    ensures
        spec_write(
            spec_write(published, assembled(base, extra, registered)),
            assembled(later_base, later_extra, later_registered),
        ) == spec_write(published, assembled(base, extra, registered)),
        published is None ==> spec_write(published, assembled(base, extra, registered)) == Some(
            assembled(base, extra, registered),
        ),
{
}

/// The published document, if one was published.
pub fn get_openapi_spec(slot: &WriteOnce<SpecDocument>) -> (published: Option<&SpecDocument>)
    ensures
        match published {
            Some(document) => slot@ == Some(*document),
            None => slot@ is None,
        },
{
    slot.get()
}

/// The endpoints that serve the document itself: as JSON where a JSON URL
/// is given, then as YAML where a YAML URL is given.
pub open spec fn document_endpoints(
    spec_json_url: Option<Seq<char>>,
    spec_yaml_url: Option<Seq<char>>,
) -> Seq<EndpointView> {
    let json = match spec_json_url {
        Some(url) => seq![EndpointView { url, content: Content::Json }],
        None => Seq::empty(),
    };
    let yaml = match spec_yaml_url {
        Some(url) => seq![EndpointView { url, content: Content::Yaml }],
        None => Seq::empty(),
    };
    json + yaml
}

/// The endpoints of one visualizer: its viewer, then the document as JSON
/// and as YAML where the entry gives their URLs. For Swagger the JSON URL is
/// always there. Nothing where the visualizer is not configured, or where
/// the entry in its place configures another one.
pub open spec fn visualizer_endpoints(
    kind: VisualizerKind,
    entry: Option<OpenAPITypeView>,
) -> Seq<EndpointView> {
    match (kind, entry) {
        (
            VisualizerKind::Redoc,
            Some(OpenAPITypeView::Redoc { url, spec_json_url, spec_yaml_url }),
        ) => seq![EndpointView { url, content: Content::Viewer(kind) }] + document_endpoints(
            spec_json_url,
            spec_yaml_url,
        ),
        (
            VisualizerKind::Scalar,
            Some(OpenAPITypeView::Scalar { url, spec_json_url, spec_yaml_url }),
        ) => seq![EndpointView { url, content: Content::Viewer(kind) }] + document_endpoints(
            spec_json_url,
            spec_yaml_url,
        ),
        (
            VisualizerKind::Swagger,
            Some(OpenAPITypeView::Swagger { url, spec_json_url, spec_yaml_url }),
        ) => seq![EndpointView { url, content: Content::Viewer(kind) }] + document_endpoints(
            Some(spec_json_url),
            spec_yaml_url,
        ),
        _ => Seq::empty(),
    }
}

/// The endpoints of a configuration: those of Redoc, then those of Scalar,
/// then those of Swagger.
pub open spec fn wired(config: OpenAPIConfigView) -> Seq<EndpointView> {
    visualizer_endpoints(VisualizerKind::Redoc, config.redoc) + visualizer_endpoints(
        VisualizerKind::Scalar,
        config.scalar,
    ) + visualizer_endpoints(VisualizerKind::Swagger, config.swagger)
}

/// How many endpoints a visualizer has: none where it is not configured,
/// else its viewer and one for each document URL that its entry gives.
pub open spec fn endpoint_count(kind: VisualizerKind, entry: Option<OpenAPITypeView>) -> nat {
    match (kind, entry) {
        (VisualizerKind::Redoc, Some(OpenAPITypeView::Redoc { spec_json_url, spec_yaml_url, .. }))
        | (
            VisualizerKind::Scalar,
            Some(OpenAPITypeView::Scalar { spec_json_url, spec_yaml_url, .. }),
        ) => 1 + (if spec_json_url is Some {
            1nat
        } else {
            0nat
        }) + (if spec_yaml_url is Some {
            1nat
        } else {
            0nat
        }),
        (VisualizerKind::Swagger, Some(OpenAPITypeView::Swagger { spec_yaml_url, .. })) => 2 + (
        if spec_yaml_url is Some {
            1nat
        } else {
            0nat
        }),
        _ => 0,
    }
}

/// A visualizer has the endpoints that `endpoint_count` counts: none where
/// it is not configured, or where the entry in its place configures another
/// one; else its viewer first, at the URL of the entry, and then one for each
/// document URL that the entry gives.
pub proof fn lemma_visualizer_endpoints(kind: VisualizerKind, entry: Option<OpenAPITypeView>)
    ensures
        visualizer_endpoints(kind, entry).len() == endpoint_count(kind, entry),
        endpoint_count(kind, entry) > 0 <==> (entry matches Some(configured) && kind_of(configured)
            == kind),
        endpoint_count(kind, entry) > 0 ==> visualizer_endpoints(kind, entry)[0] == (EndpointView {
            url: url_of(entry->0),
            content: Content::Viewer(kind),
        }),
        forall|i: int|
            1 <= i < visualizer_endpoints(kind, entry).len() ==> !(#[trigger] visualizer_endpoints(
                kind,
                entry,
            )[i].content is Viewer),
{
}

/// A configuration has as many endpoints as its visualizers have together:
/// for each one that is configured its viewer and one for each document URL
/// it gives, and none for one that is not.
pub proof fn lemma_wired_count(config: OpenAPIConfigView)
    ensures
        wired(config).len() == endpoint_count(VisualizerKind::Redoc, config.redoc)
            + endpoint_count(VisualizerKind::Scalar, config.scalar) + endpoint_count(
            VisualizerKind::Swagger,
            config.swagger,
        ),
        config.redoc is None && config.scalar is None && config.swagger is None ==> wired(
            config,
        ).len() == 0,
{
    lemma_visualizer_endpoints(VisualizerKind::Redoc, config.redoc);
    lemma_visualizer_endpoints(VisualizerKind::Scalar, config.scalar);
    lemma_visualizer_endpoints(VisualizerKind::Swagger, config.swagger);
}

/// Every visualizer that settings configure is mounted: it has its viewer
/// among the endpoints, at the URL that the settings give. One that they do
/// not configure has no endpoint.
pub proof fn lemma_configured_is_mounted(settings: RawSettingsView)
    ensures
        configured(settings) matches Ok(Some(config)) ==> {
            &&& forall|kind: VisualizerKind| #[trigger]
                endpoint_count(kind, placed(config, kind)) > 0 <==> placed(config, kind) is Some
            &&& forall|kind: VisualizerKind|
                placed(config, kind) is Some ==> (#[trigger] visualizer_endpoints(
                    kind,
                    placed(config, kind),
                ))[0] == (EndpointView {
                    url: url_of(placed(config, kind)->0),
                    content: Content::Viewer(kind),
                })
        },
{
    lemma_configured_well_placed(settings);
    if let Ok(Some(config)) = configured(settings) {
        assert forall|kind: VisualizerKind| #[trigger]
            endpoint_count(kind, placed(config, kind)) > 0 <==> placed(config, kind) is Some by {
            lemma_visualizer_endpoints(kind, placed(config, kind));
        }
        assert forall|kind: VisualizerKind| placed(config, kind) is Some implies (
        #[trigger] visualizer_endpoints(kind, placed(config, kind)))[0] == (EndpointView {
            url: url_of(placed(config, kind)->0),
            content: Content::Viewer(kind),
        }) by {
            lemma_visualizer_endpoints(kind, placed(config, kind));
        }
    }
}

/// Adds to `router` the endpoints that serve the document itself: as JSON
/// where `spec_json_url` is given, then as YAML where `spec_yaml_url` is
/// given.
pub fn add_openapi_endpoints(
    router: Vec<Endpoint>,
    spec_json_url: &Option<String>,
    spec_yaml_url: &Option<String>,
) -> (mounted: Vec<Endpoint>)
    ensures
        models(mounted@) == models(router@) + document_endpoints(
            text_of(*spec_json_url),
            text_of(*spec_yaml_url),
        ),
{
    let mut mounted = router;
    if let Some(url) = spec_json_url {
        mounted.push(Endpoint { url: url.clone(), content: Content::Json });
    }
    if let Some(url) = spec_yaml_url {
        mounted.push(Endpoint { url: url.clone(), content: Content::Yaml });
    }
    assert(models(mounted@) =~= models(router@) + document_endpoints(
        text_of(*spec_json_url),
        text_of(*spec_yaml_url),
    ));
    mounted
}

/// Adds to `router` the endpoints of the visualizer `kind`, as `entry`
/// configures it: nothing where there is no entry, or where the entry
/// configures another visualizer.
pub fn mount(router: Vec<Endpoint>, kind: VisualizerKind, entry: &Option<OpenAPIType>) -> (mounted:
    Vec<Endpoint>)
    ensures
        models(mounted@) == models(router@) + visualizer_endpoints(kind, entry_view(*entry)),
{
    let mut mounted = router;
    match (kind, entry) {
        (VisualizerKind::Redoc, Some(OpenAPIType::Redoc { url, spec_json_url, spec_yaml_url }))
        | (
            VisualizerKind::Scalar,
            Some(OpenAPIType::Scalar { url, spec_json_url, spec_yaml_url }),
        ) => {
            mounted.push(Endpoint { url: url.clone(), content: Content::Viewer(kind) });
            let ghost viewer = models(mounted@);
            mounted = add_openapi_endpoints(mounted, spec_json_url, spec_yaml_url);
            assert(viewer =~= models(router@) + seq![
                EndpointView { url: url@, content: Content::Viewer(kind) },
            ]);
            assert(models(mounted@) =~= models(router@) + visualizer_endpoints(
                kind,
                entry_view(*entry),
            ));
        },
        (VisualizerKind::Swagger, Some(OpenAPIType::Swagger { url, spec_json_url, spec_yaml_url })) => {
            mounted.push(Endpoint { url: url.clone(), content: Content::Viewer(kind) });
            let ghost viewer = models(mounted@);
            mounted.push(Endpoint { url: spec_json_url.clone(), content: Content::Json });
            let ghost json = models(mounted@);
            mounted = add_openapi_endpoints(mounted, &None, spec_yaml_url);
            assert(viewer =~= models(router@) + seq![
                EndpointView { url: url@, content: Content::Viewer(kind) },
            ]);
            assert(json =~= viewer + seq![
                EndpointView { url: spec_json_url@, content: Content::Json },
            ]);
            assert(models(mounted@) =~= models(router@) + visualizer_endpoints(
                kind,
                entry_view(*entry),
            ));
        },
        _ => {
            assert(models(mounted@) =~= models(router@) + visualizer_endpoints(
                kind,
                entry_view(*entry),
            ));
        },
    }
    mounted
}

/// Adds to `router` the endpoints of the configuration: for Redoc, then for
/// Scalar, then for Swagger, the viewer and the document URLs of each one
/// that is configured.
pub fn wire(router: Vec<Endpoint>, config: &OpenAPIConfig) -> (mounted: Vec<Endpoint>)
    ensures
        models(mounted@) == models(router@) + wired(config@),
{
    let mounted = mount(router, VisualizerKind::Redoc, &config.redoc);
    let mounted = mount(mounted, VisualizerKind::Scalar, &config.scalar);
    let mounted = mount(mounted, VisualizerKind::Swagger, &config.swagger);
    mounted
}

} // verus!
