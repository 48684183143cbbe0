//! API documentation for a web application, collected from its route
//! declarations.
//!
//! Route declarations register documentation fragments as they are made
//! ([`openapi`]). When all routes are declared, the initializer hook runs
//! once ([`OpenapiInitializerWithSetup::after_routes`]): it resolves the
//! visualizer configuration ([`config`]), assembles the fragments into one
//! document and publishes it, and plans the endpoints that expose the
//! document and its viewers ([`utils`]). Configuration and document sit in
//! write-once slots ([`once`]): what the first run leaves, later runs find
//! and keep.

pub mod auth;
pub mod config;
pub mod document;
pub mod json;
pub mod once;
pub mod openapi;
pub mod raw;
pub mod table;
pub mod utils;

use crate::config::{
    config_slot_view, get_openapi_config, resolve_openapi_config, resolved, resolved_once,
    ConfigError, InitializerConfig, OpenAPIConfig, OpenAPIConfigView,
};
use crate::document::{Fragment, FragmentView, SpecDocument, SpecDocumentView};
use crate::json::JsonModel;
use crate::once::{spec_write, WriteOnce};
use crate::openapi::{assembled, base_keyed_once, document_view, FragmentRegistry};
use crate::table::models;
use crate::utils::{assemble_once, wire, wired, Endpoint, EndpointView};
use vstd::prelude::*;

verus! {

/// The initializer that documents an application: a base document to start
/// from, if any, and fragments to add to what the routes register, if any.
#[derive(Debug)]
pub struct OpenapiInitializerWithSetup {
    /// The document to start from; the empty shell where there is none.
    initial_spec: Option<SpecDocument>,
    /// Fragments to merge before those that the routes have registered.
    routes_setup: Option<Vec<Fragment>>,
}

impl Default for OpenapiInitializerWithSetup {
    /// No base document and no fragments of its own.
    fn default() -> (initializer: Self)
        ensures
            initializer.base() is None,
            initializer.extra() == Seq::<FragmentView>::empty(),
    {
        OpenapiInitializerWithSetup { initial_spec: None, routes_setup: None }
    }
}

/// What the two slots hold, as the hook sees it.
pub struct HookState {
    /// The resolved configuration: unset before the first resolution; set
    /// to none where the settings had no section.
    pub config: Option<Option<OpenAPIConfigView>>,
    /// The published document: unset until the hook has run.
    pub document: Option<SpecDocumentView>,
}

impl HookState {
    /// Whether the hook has run: a document is published.
    pub open spec fn initialized(self) -> bool {
        self.document is Some
    }
}

/// What the two slots hold.
pub open spec fn hook_state(
    config_slot: Option<Option<OpenAPIConfig>>,
    spec_slot: Option<SpecDocument>,
) -> HookState {
    HookState { config: config_slot_view(config_slot), document: document_view(spec_slot) }
}

/// The endpoints to mount for a resolved configuration: none where there
/// is no configuration.
pub open spec fn planned(config: Option<OpenAPIConfigView>) -> Seq<EndpointView> {
    match config {
        Some(config) => wired(config),
        None => Seq::empty(),
    }
}

/// One run of the hook, from the state before it to the state after it and
/// the endpoints to mount.
///
/// The configuration is the one that the state holds already, whatever the
/// settings say now; only where it holds none are the settings resolved, and
/// an error there ends the run. The document is assembled and published;
/// where one is published already, that one stays.
pub open spec fn hook(
    state: HookState,
    base: Option<SpecDocumentView>,
    extra: Seq<FragmentView>,
    registered: Seq<FragmentView>,
    settings: Option<JsonModel>,
) -> Result<(HookState, Seq<EndpointView>), ConfigError> {
    match resolved_once(state.config, settings) {
        Err(error) => Err(error),
        Ok(config) => Ok(
            (
                HookState {
                    config: Some(config),
                    document: spec_write(state.document, assembled(base, extra, registered)),
                },
                planned(config),
            ),
        ),
    }
}

impl OpenapiInitializerWithSetup {
    /// The base document, if there is one.
    pub closed spec fn base(&self) -> Option<SpecDocumentView> {
        document_view(self.initial_spec)
    }

    /// The fragments that the initializer adds.
    pub closed spec fn extra(&self) -> Seq<FragmentView> {
        match self.routes_setup {
            Some(fragments) => models(fragments@),
            None => Seq::empty(),
        }
    }

    /// An initializer that starts from `initial_spec` and adds the
    /// fragments of `routes_setup`.
    pub fn new(initial_spec: SpecDocument, routes_setup: Option<Vec<Fragment>>) -> (initializer:
        Self)
        ensures
            initializer.base() == Some(initial_spec@),
            initializer.extra() == match routes_setup {
                Some(fragments) => models(fragments@),
                None => Seq::empty(),
            },
    {
        OpenapiInitializerWithSetup { initial_spec: Some(initial_spec), routes_setup }
    }

    /// The name of the initializer.
    pub fn name(&self) -> (name: String)
        ensures
            name@ == "openapi"@,
    {
        "openapi".to_owned()
    }

    /// The hook that runs when all routes are declared.
    ///
    /// Resolves the configuration unless one is held already, assembles the
    /// document and publishes it unless one is published already, and gives
    /// the endpoints to mount: those of the configuration that the slot now
    /// holds, none where it holds none. Where the settings are refused,
    /// neither slot changes. With a base that is keyed once, or none, the
    /// published document is keyed once.
    pub fn after_routes(
        &self,
        config_slot: &mut WriteOnce<Option<OpenAPIConfig>>,
        spec_slot: &mut WriteOnce<SpecDocument>,
        registry: &FragmentRegistry,
        initializers: &InitializerConfig,
    ) -> (result: Result<Vec<Endpoint>, ConfigError>)
        ensures
            hook(
                hook_state(old(config_slot)@, old(spec_slot)@),
                self.base(),
                self.extra(),
                registry@,
                initializers.settings(),
            ) == match result {
                Ok(endpoints) => Ok::<(HookState, Seq<EndpointView>), ConfigError>(
                    (hook_state(final(config_slot)@, final(spec_slot)@), models(endpoints@)),
                ),
                Err(error) => Err(error),
            },
            result is Err ==> final(config_slot)@ == old(config_slot)@ && final(spec_slot)@ == old(
                spec_slot,
            )@,
            old(config_slot)@ is Some ==> final(config_slot)@ == old(config_slot)@,
            old(spec_slot)@ is Some ==> final(spec_slot)@ == old(spec_slot)@,
            base_keyed_once(self.base()) && base_keyed_once(document_view(old(spec_slot)@))
                ==> base_keyed_once(document_view(final(spec_slot)@)),
    {
        if let Err(error) = resolve_openapi_config(config_slot, initializers) {
            return Err(error);
        }
        let base = match &self.initial_spec {
            Some(document) => Some(document.clone()),
            None => None,
        };
        match &self.routes_setup {
            Some(fragments) => assemble_once(spec_slot, base, fragments, registry),
            None => assemble_once(spec_slot, base, &Vec::new(), registry),
        };
        let endpoints = match get_openapi_config(config_slot) {
            Some(config) => wire(Vec::new(), config),
            None => Vec::new(),
        };
        assert(models(endpoints@) =~= planned(config_slot_view(config_slot@)->0));
        Ok(endpoints)
    }
}

/// What the hook has set stays set, and a second run changes nothing:
/// whatever the second run is given, it is never refused, it leaves the
/// state of the first run, and it plans the endpoints of the first run.
pub proof fn lemma_hook_runs_once(
    state: HookState,
    base: Option<SpecDocumentView>,
    extra: Seq<FragmentView>,
    registered: Seq<FragmentView>,
    settings: Option<JsonModel>,
    later_base: Option<SpecDocumentView>,
    later_extra: Seq<FragmentView>,
    later_registered: Seq<FragmentView>,
    later_settings: Option<JsonModel>,
)
    requires
        hook(state, base, extra, registered, settings) is Ok,
    ensures
        ({
            let first = hook(state, base, extra, registered, settings)->Ok_0;
            let second = hook(first.0, later_base, later_extra, later_registered, later_settings);
            &&& first.0.initialized()
            &&& first.0.config is Some
            &&& second == Ok::<(HookState, Seq<EndpointView>), ConfigError>(first)
        }),
{
}

/// The first run of the hook publishes the document that base, extra
/// fragments and registry assemble to, resolves the configuration from the
/// settings, and is refused exactly when the settings are.
pub proof fn lemma_hook_first_run(
    base: Option<SpecDocumentView>,
    extra: Seq<FragmentView>,
    registered: Seq<FragmentView>,
    settings: Option<JsonModel>,
)
    ensures
        ({
            let fresh = HookState { config: None, document: None };
            match hook(fresh, base, extra, registered, settings) {
                Ok((state, endpoints)) => {
                    &&& resolved(settings) == Ok::<Option<OpenAPIConfigView>, ConfigError>(
                        state.config->0,
                    )
                    &&& state.document == Some(assembled(base, extra, registered))
                    &&& endpoints == planned(state.config->0)
                },
                Err(error) => resolved(settings) == Err::<Option<OpenAPIConfigView>, ConfigError>(
                    error,
                ),
            }
        }),
{
}

} // verus!
