//! The visualizer configuration and how it is resolved.
//!
//! The configuration comes as a JSON value: the application's table of
//! initializer settings. Under the name `openapi` it may hold a table with up
//! to three entries, one for each visualizer:
//!
//! ```yaml
//! openapi:
//!   redoc:
//!     url: /redoc
//!     spec_json_url: /redoc/openapi.json
//!     spec_yaml_url: /redoc/openapi.yaml
//!   scalar:
//!     url: /scalar
//!   swagger:
//!     url: /swagger
//!     spec_json_url: /api-docs/openapi.json
//! ```
//!
//! Every visualizer needs its `url`; Swagger needs its `spec_json_url` too.
//! A name that holds null counts as a name that is not there, and names
//! other than these are not looked at. An entry that is there and breaks
//! these rules is an error, not an entry left out.
//!
//! Resolving is reading and then judging: the settings are read as they
//! stand ([`crate::raw`]), and the rules are applied to what was read.

use crate::json::JsonModel;
use crate::once::{spec_write, WriteOnce};
use crate::raw::{
    member, raw_settings, read_settings, settings_model, RawEntry, RawEntryView, RawSettings,
    RawSettingsView, RawUrl, RawUrlView, RawVisualizer, RawVisualizerView,
};
use vstd::prelude::*;

verus! {

/// The three visualizers, in the order in which they are resolved and
/// mounted.
#[derive(Debug, Clone, Copy, PartialEq, Eq, Hash, Structural)]
pub enum VisualizerKind {
    Redoc,
    Scalar,
    Swagger,
}

impl VisualizerKind {
    /// The name of the visualizer's entry in the configuration.
    pub open spec fn spec_name(self) -> Seq<char> {
        match self {
            VisualizerKind::Redoc => "redoc"@,
            VisualizerKind::Scalar => "scalar"@,
            VisualizerKind::Swagger => "swagger"@,
        }
    }

    /// The name of the visualizer's entry in the configuration.
    pub fn name(self) -> (name: &'static str)
        ensures
            name@ == self.spec_name(),
    {
        match self {
            VisualizerKind::Redoc => "redoc",
            VisualizerKind::Scalar => "scalar",
            VisualizerKind::Swagger => "swagger",
        }
    }
}

/// The three URLs of a visualizer's entry.
#[derive(Debug, Clone, Copy, PartialEq, Eq, Hash, Structural)]
pub enum UrlField {
    /// `url`: where the viewer is mounted.
    Url,
    /// `spec_json_url`: where the document is served as JSON.
    SpecJsonUrl,
    /// `spec_yaml_url`: where the document is served as YAML.
    SpecYamlUrl,
}

impl UrlField {
    /// The name of the field in a visualizer's entry.
    pub open spec fn spec_name(self) -> Seq<char> {
        match self {
            UrlField::Url => "url"@,
            UrlField::SpecJsonUrl => "spec_json_url"@,
            UrlField::SpecYamlUrl => "spec_yaml_url"@,
        }
    }

    /// The name of the field in a visualizer's entry.
    pub fn name(self) -> (name: &'static str)
        ensures
            name@ == self.spec_name(),
    {
        match self {
            UrlField::Url => "url",
            UrlField::SpecJsonUrl => "spec_json_url",
            UrlField::SpecYamlUrl => "spec_yaml_url",
        }
    }
}

/// Why a configuration was refused.
#[derive(Debug, Clone, Copy, PartialEq, Eq, Hash, Structural)]
pub enum ConfigError {
    /// `openapi` is there and is no table.
    SectionNotTable,
    /// The entry of a visualizer is there and is no table.
    VisualizerNotTable { kind: VisualizerKind },
    /// A URL that the visualizer needs is not there.
    MissingUrl { kind: VisualizerKind, field: UrlField },
    /// A URL is there and is no string.
    InvalidUrl { kind: VisualizerKind, field: UrlField },
}

impl ConfigError {
    /// The error in words: the place in the settings, then what is wrong
    /// there.
    pub open spec fn spec_message(self) -> Seq<char> {
        match self {
            ConfigError::SectionNotTable => "openapi: expected a table"@,
            ConfigError::VisualizerNotTable { kind } => "openapi."@ + kind.spec_name()
                + ": expected a table"@,
            ConfigError::MissingUrl { kind, field } => "openapi."@ + kind.spec_name() + "."@
                + field.spec_name() + ": missing"@,
            ConfigError::InvalidUrl { kind, field } => "openapi."@ + kind.spec_name() + "."@
                + field.spec_name() + ": expected a string"@,
        }
    }

    /// The error in words, such as `openapi.swagger.spec_json_url: missing`.
    pub fn message(&self) -> (message: String)
        ensures
            message@ == self.spec_message(),
    {
        match self {
            ConfigError::SectionNotTable => "openapi: expected a table".to_owned(),
            ConfigError::VisualizerNotTable { kind } => "openapi.".to_owned().concat(
                kind.name(),
            ).concat(": expected a table"),
            ConfigError::MissingUrl { kind, field } => "openapi.".to_owned().concat(
                kind.name(),
            ).concat(".").concat(field.name()).concat(": missing"),
            ConfigError::InvalidUrl { kind, field } => "openapi.".to_owned().concat(
                kind.name(),
            ).concat(".").concat(field.name()).concat(": expected a string"),
        }
    }
}

/// The configuration of one visualizer.
#[derive(Debug, PartialEq, Eq)]
#[allow(inconsistent_fields)]
pub enum OpenAPIType {
    Redoc {
        /// Where the viewer is mounted, for example `/redoc`.
        url: String,
        /// Where the document is served as JSON, for example
        /// `/redoc/openapi.json`.
        spec_json_url: Option<String>,
        /// Where the document is served as YAML, for example
        /// `/redoc/openapi.yaml`.
        spec_yaml_url: Option<String>,
    },
    Scalar {
        /// Where the viewer is mounted, for example `/scalar`.
        url: String,
        /// Where the document is served as JSON, for example
        /// `/scalar/openapi.json`.
        spec_json_url: Option<String>,
        /// Where the document is served as YAML, for example
        /// `/scalar/openapi.yaml`.
        spec_yaml_url: Option<String>,
    },
    Swagger {
        /// Where the viewer is mounted, for example `/swagger`.
        url: String,
        /// Where the document is served as JSON, for example
        /// `/api-docs/openapi.json`. The viewer loads the document from
        /// here, so this one is not optional.
        spec_json_url: String,
        /// Where the document is served as YAML, for example
        /// `/api-docs/openapi.yaml`.
        spec_yaml_url: Option<String>,
    },
}

#[allow(inconsistent_fields)]
pub enum OpenAPITypeView {
    Redoc { url: Seq<char>, spec_json_url: Option<Seq<char>>, spec_yaml_url: Option<Seq<char>> },
    Scalar { url: Seq<char>, spec_json_url: Option<Seq<char>>, spec_yaml_url: Option<Seq<char>> },
    Swagger { url: Seq<char>, spec_json_url: Seq<char>, spec_yaml_url: Option<Seq<char>> },
}

/// The text of an optional string.
pub open spec fn text_of(optional: Option<String>) -> Option<Seq<char>> {
    match optional {
        Some(text) => Some(text@),
        None => None,
    }
}

impl View for OpenAPIType {
    type V = OpenAPITypeView;

    open spec fn view(&self) -> OpenAPITypeView {
        match self {
            OpenAPIType::Redoc { url, spec_json_url, spec_yaml_url } => OpenAPITypeView::Redoc {
                url: url@,
                spec_json_url: text_of(*spec_json_url),
                spec_yaml_url: text_of(*spec_yaml_url),
            },
            OpenAPIType::Scalar { url, spec_json_url, spec_yaml_url } => OpenAPITypeView::Scalar {
                url: url@,
                spec_json_url: text_of(*spec_json_url),
                spec_yaml_url: text_of(*spec_yaml_url),
            },
            OpenAPIType::Swagger { url, spec_json_url, spec_yaml_url } => OpenAPITypeView::Swagger {
                url: url@,
                spec_json_url: spec_json_url@,
                spec_yaml_url: text_of(*spec_yaml_url),
            },
        }
    }
}

/// A copy of an optional string.
fn clone_text(optional: &Option<String>) -> (copy: Option<String>)
    ensures
        text_of(copy) == text_of(*optional),
{
    match optional {
        Some(text) => Some(text.clone()),
        None => None,
    }
}

impl Clone for OpenAPIType {
    fn clone(&self) -> (copy: Self)
        ensures
            copy@ == self@,
    {
        match self {
            OpenAPIType::Redoc { url, spec_json_url, spec_yaml_url } => OpenAPIType::Redoc {
                url: url.clone(),
                spec_json_url: clone_text(spec_json_url),
                spec_yaml_url: clone_text(spec_yaml_url),
            },
            OpenAPIType::Scalar { url, spec_json_url, spec_yaml_url } => OpenAPIType::Scalar {
                url: url.clone(),
                spec_json_url: clone_text(spec_json_url),
                spec_yaml_url: clone_text(spec_yaml_url),
            },
            OpenAPIType::Swagger { url, spec_json_url, spec_yaml_url } => OpenAPIType::Swagger {
                url: url.clone(),
                spec_json_url: spec_json_url.clone(),
                spec_yaml_url: clone_text(spec_yaml_url),
            },
        }
    }
}

/// The URL that an optional field holds: none where the field is missing.
pub open spec fn optional_url(raw: RawUrlView) -> Option<Seq<char>> {
    match raw {
        RawUrlView::Text(text) => Some(text),
        _ => None,
    }
}

/// The configuration that the entry `raw` gives the visualizer `kind`, or
/// the first rule that the entry breaks. The fields are looked at in the
/// order `url`, `spec_json_url`, `spec_yaml_url`: one that is no string is
/// refused; `url` must be there, and for Swagger `spec_json_url` too.
pub open spec fn validated(kind: VisualizerKind, raw: RawVisualizerView) -> Result<
    OpenAPITypeView,
    ConfigError,
> {
    if raw.url is Missing {
        Err(ConfigError::MissingUrl { kind, field: UrlField::Url })
    } else if raw.url is Invalid {
        Err(ConfigError::InvalidUrl { kind, field: UrlField::Url })
    } else if raw.spec_json_url is Invalid {
        Err(ConfigError::InvalidUrl { kind, field: UrlField::SpecJsonUrl })
    } else if kind == VisualizerKind::Swagger && raw.spec_json_url is Missing {
        Err(ConfigError::MissingUrl { kind, field: UrlField::SpecJsonUrl })
    } else if raw.spec_yaml_url is Invalid {
        Err(ConfigError::InvalidUrl { kind, field: UrlField::SpecYamlUrl })
    } else {
        Ok(
            match kind {
                VisualizerKind::Redoc => OpenAPITypeView::Redoc {
                    url: raw.url->Text_0,
                    spec_json_url: optional_url(raw.spec_json_url),
                    spec_yaml_url: optional_url(raw.spec_yaml_url),
                },
                VisualizerKind::Scalar => OpenAPITypeView::Scalar {
                    url: raw.url->Text_0,
                    spec_json_url: optional_url(raw.spec_json_url),
                    spec_yaml_url: optional_url(raw.spec_yaml_url),
                },
                VisualizerKind::Swagger => OpenAPITypeView::Swagger {
                    url: raw.url->Text_0,
                    spec_json_url: raw.spec_json_url->Text_0,
                    spec_yaml_url: optional_url(raw.spec_yaml_url),
                },
            },
        )
    }
}

/// The view of a result that holds a visualizer's configuration.
pub open spec fn validated_view(result: Result<OpenAPIType, ConfigError>) -> Result<
    OpenAPITypeView,
    ConfigError,
> {
    match result {
        Ok(entry) => Ok(entry@),
        Err(error) => Err(error),
    }
}

/// The URL of an optional field that has passed the rules.
fn into_optional(raw: RawUrl) -> (url: Option<String>)
    ensures
        text_of(url) == optional_url(raw@),
{
    match raw {
        RawUrl::Text(text) => Some(text),
        _ => None,
    }
}

impl OpenAPIType {
    /// Applies the rules to an entry as it was read: the configuration of
    /// the visualizer `kind`, or the first rule that the entry breaks.
    pub fn from_raw(kind: VisualizerKind, raw: RawVisualizer) -> (result: Result<
        OpenAPIType,
        ConfigError,
    >)
        ensures
            validated_view(result) == validated(kind, raw@),
    {
        let RawVisualizer { url, spec_json_url, spec_yaml_url } = raw;
        let url = match url {
            RawUrl::Missing => {
                return Err(ConfigError::MissingUrl { kind, field: UrlField::Url });
            },
            RawUrl::Invalid => {
                return Err(ConfigError::InvalidUrl { kind, field: UrlField::Url });
            },
            RawUrl::Text(text) => text,
        };
        if let RawUrl::Invalid = spec_json_url {
            return Err(ConfigError::InvalidUrl { kind, field: UrlField::SpecJsonUrl });
        }
        match kind {
            VisualizerKind::Swagger => {
                let spec_json_url = match spec_json_url {
                    RawUrl::Text(text) => text,
                    _ => {
                        return Err(
                            ConfigError::MissingUrl { kind, field: UrlField::SpecJsonUrl },
                        );
                    },
                };
                if let RawUrl::Invalid = spec_yaml_url {
                    return Err(ConfigError::InvalidUrl { kind, field: UrlField::SpecYamlUrl });
                }
                Ok(
                    OpenAPIType::Swagger {
                        url,
                        spec_json_url,
                        spec_yaml_url: into_optional(spec_yaml_url),
                    },
                )
            },
            VisualizerKind::Redoc => {
                if let RawUrl::Invalid = spec_yaml_url {
                    return Err(ConfigError::InvalidUrl { kind, field: UrlField::SpecYamlUrl });
                }
                Ok(
                    OpenAPIType::Redoc {
                        url,
                        spec_json_url: into_optional(spec_json_url),
                        spec_yaml_url: into_optional(spec_yaml_url),
                    },
                )
            },
            VisualizerKind::Scalar => {
                if let RawUrl::Invalid = spec_yaml_url {
                    return Err(ConfigError::InvalidUrl { kind, field: UrlField::SpecYamlUrl });
                }
                Ok(
                    OpenAPIType::Scalar {
                        url,
                        spec_json_url: into_optional(spec_json_url),
                        spec_yaml_url: into_optional(spec_yaml_url),
                    },
                )
            },
        }
    }

    /// Which visualizer this configures.
    pub fn kind(&self) -> (kind: VisualizerKind)
        ensures
            kind == kind_of(self@),
    {
        match self {
            OpenAPIType::Redoc { .. } => VisualizerKind::Redoc,
            OpenAPIType::Scalar { .. } => VisualizerKind::Scalar,
            OpenAPIType::Swagger { .. } => VisualizerKind::Swagger,
        }
    }
}

/// Which visualizer an entry configures.
pub open spec fn kind_of(entry: OpenAPITypeView) -> VisualizerKind {
    match entry {
        OpenAPITypeView::Redoc { .. } => VisualizerKind::Redoc,
        OpenAPITypeView::Scalar { .. } => VisualizerKind::Scalar,
        OpenAPITypeView::Swagger { .. } => VisualizerKind::Swagger,
    }
}

/// Where the viewer of an entry is mounted.
pub open spec fn url_of(entry: OpenAPITypeView) -> Seq<char> {
    match entry {
        OpenAPITypeView::Redoc { url, .. } => url,
        OpenAPITypeView::Scalar { url, .. } => url,
        OpenAPITypeView::Swagger { url, .. } => url,
    }
}

/// What passes the rules configures the visualizer it was read for, at the
/// URL that was read.
pub proof fn lemma_validated_kind(kind: VisualizerKind, raw: RawVisualizerView)
    ensures
        validated(kind, raw) matches Ok(entry) ==> kind_of(entry) == kind && raw.url
            == RawUrlView::Text(url_of(entry)),
{
}

/// The visualizer configuration: for each visualizer its entry, or none
/// where the visualizer is not configured.
#[derive(Debug, PartialEq, Eq)]
pub struct OpenAPIConfig {
    pub redoc: Option<OpenAPIType>,
    pub scalar: Option<OpenAPIType>,
    pub swagger: Option<OpenAPIType>,
}

pub struct OpenAPIConfigView {
    pub redoc: Option<OpenAPITypeView>,
    pub scalar: Option<OpenAPITypeView>,
    pub swagger: Option<OpenAPITypeView>,
}

/// The view of an optional entry.
pub open spec fn entry_view(entry: Option<OpenAPIType>) -> Option<OpenAPITypeView> {
    match entry {
        Some(entry) => Some(entry@),
        None => None,
    }
}

impl View for OpenAPIConfig {
    type V = OpenAPIConfigView;

    open spec fn view(&self) -> OpenAPIConfigView {
        OpenAPIConfigView {
            redoc: entry_view(self.redoc),
            scalar: entry_view(self.scalar),
            swagger: entry_view(self.swagger),
        }
    }
}

/// A copy of an optional entry.
fn clone_entry(entry: &Option<OpenAPIType>) -> (copy: Option<OpenAPIType>)
    ensures
        entry_view(copy) == entry_view(*entry),
{
    match entry {
        Some(entry) => Some(entry.clone()),
        None => None,
    }
}

impl Clone for OpenAPIConfig {
    fn clone(&self) -> (copy: Self)
        ensures
            copy@ == self@,
    {
        OpenAPIConfig {
            redoc: clone_entry(&self.redoc),
            scalar: clone_entry(&self.scalar),
            swagger: clone_entry(&self.swagger),
        }
    }
}

/// What the entry of the visualizer `kind` configures: nothing where there
/// is no entry, else what the entry gives by the rules of `validated`. An
/// entry that is no table is refused.
pub open spec fn configured_entry(kind: VisualizerKind, entry: RawEntryView) -> Result<
    Option<OpenAPITypeView>,
    ConfigError,
> {
    match entry {
        RawEntryView::Missing => Ok(None),
        RawEntryView::NotTable => Err(ConfigError::VisualizerNotTable { kind }),
        RawEntryView::Table(raw) => match validated(kind, raw) {
            Ok(configured) => Ok(Some(configured)),
            Err(error) => Err(error),
        },
    }
}

/// The configuration that settings hold: none where they have no section,
/// else what the entries of the section configure. The entries are looked at
/// in the order Redoc, Scalar, Swagger, and the first error ends it. A
/// section that is no table is refused.
pub open spec fn configured(settings: RawSettingsView) -> Result<
    Option<OpenAPIConfigView>,
    ConfigError,
> {
    match settings {
        RawSettingsView::Missing => Ok(None),
        RawSettingsView::NotTable => Err(ConfigError::SectionNotTable),
        RawSettingsView::Table { redoc, scalar, swagger } => match configured_entry(
            VisualizerKind::Redoc,
            redoc,
        ) {
            Err(error) => Err(error),
            Ok(redoc) => match configured_entry(VisualizerKind::Scalar, scalar) {
                Err(error) => Err(error),
                Ok(scalar) => match configured_entry(VisualizerKind::Swagger, swagger) {
                    Err(error) => Err(error),
                    Ok(swagger) => Ok(Some(OpenAPIConfigView { redoc, scalar, swagger })),
                },
            },
        },
    }
}

/// The configuration that the initializer settings resolve to: what they
/// hold when read, by the rules of `configured`.
pub open spec fn resolved(settings: Option<JsonModel>) -> Result<
    Option<OpenAPIConfigView>,
    ConfigError,
> {
    configured(raw_settings(settings))
}

/// Settings without an `openapi` section resolve to no configuration, and
/// so does the absence of any settings.
pub proof fn lemma_resolved_without_section(settings: Option<JsonModel>)
    requires
        settings matches Some(table) ==> member(table, "openapi"@) is None,
    ensures
        resolved(settings) == Ok::<Option<OpenAPIConfigView>, ConfigError>(None),
{
}

/// Settings are refused exactly when their section is no table or one of
/// its entries is refused; an entry is refused exactly when it is no table
/// or breaks a rule of `validated`.
pub proof fn lemma_configured_errors(settings: RawSettingsView)
    ensures
        configured(settings) is Err <==> (settings is NotTable || (settings
            matches RawSettingsView::Table { redoc, scalar, swagger } && (configured_entry(
            VisualizerKind::Redoc,
            redoc,
        ) is Err || configured_entry(VisualizerKind::Scalar, scalar) is Err || configured_entry(
            VisualizerKind::Swagger,
            swagger,
        ) is Err))),
        forall|kind: VisualizerKind, entry: RawEntryView| #[trigger]
            configured_entry(kind, entry) is Err <==> (entry is NotTable || (entry
                matches RawEntryView::Table(raw) && validated(kind, raw) is Err)),
{
}

/// The entry that stands in the place of the visualizer `kind`.
pub open spec fn placed(config: OpenAPIConfigView, kind: VisualizerKind) -> Option<
    OpenAPITypeView,
> {
    match kind {
        VisualizerKind::Redoc => config.redoc,
        VisualizerKind::Scalar => config.scalar,
        VisualizerKind::Swagger => config.swagger,
    }
}

/// Whether each entry of a configuration configures the visualizer in
/// whose place it stands.
pub open spec fn well_placed(config: OpenAPIConfigView) -> bool {
    forall|kind: VisualizerKind| #[trigger]
        placed(config, kind) matches Some(entry) ==> kind_of(entry) == kind
}

/// In a configuration that settings hold, each entry stands in the place
/// of the visualizer that it configures.
pub proof fn lemma_configured_well_placed(settings: RawSettingsView)
    ensures
        configured(settings) matches Ok(Some(config)) ==> well_placed(config),
{
    if let RawSettingsView::Table { redoc, scalar, swagger } = settings {
        if let RawEntryView::Table(raw) = redoc {
            lemma_validated_kind(VisualizerKind::Redoc, raw);
        }
        if let RawEntryView::Table(raw) = scalar {
            lemma_validated_kind(VisualizerKind::Scalar, raw);
        }
        if let RawEntryView::Table(raw) = swagger {
            lemma_validated_kind(VisualizerKind::Swagger, raw);
        }
        if let Ok(Some(config)) = configured(settings) {
            assert forall|kind: VisualizerKind| #[trigger]
                placed(config, kind) is Some implies kind_of(placed(config, kind)->0) == kind by {}
        }
    }
}

/// The view of the result of a resolution.
pub open spec fn resolved_view(result: Result<Option<OpenAPIConfig>, ConfigError>) -> Result<
    Option<OpenAPIConfigView>,
    ConfigError,
> {
    match result {
        Ok(Some(config)) => Ok(Some(config@)),
        Ok(None) => Ok(None),
        Err(error) => Err(error),
    }
}

/// What the entry of the visualizer `kind` configures.
fn entry_from_raw(kind: VisualizerKind, entry: RawEntry) -> (result: Result<
    Option<OpenAPIType>,
    ConfigError,
>)
    ensures
        configured_entry(kind, entry@) == match result {
            Ok(configured) => Ok::<Option<OpenAPITypeView>, ConfigError>(entry_view(configured)),
            Err(error) => Err(error),
        },
{
    match entry {
        RawEntry::Missing => Ok(None),
        RawEntry::NotTable => Err(ConfigError::VisualizerNotTable { kind }),
        RawEntry::Table(raw) => match OpenAPIType::from_raw(kind, raw) {
            Ok(configured) => Ok(Some(configured)),
            Err(error) => Err(error),
        },
    }
}

impl OpenAPIConfig {
    /// Applies the rules to settings as they were read: their
    /// configuration, none where they have no section, or the first rule
    /// that they break.
    pub fn from_raw(raw: RawSettings) -> (result: Result<Option<OpenAPIConfig>, ConfigError>)
        ensures
            resolved_view(result) == configured(raw@),
    {
        match raw {
            RawSettings::Missing => Ok(None),
            RawSettings::NotTable => Err(ConfigError::SectionNotTable),
            RawSettings::Table { redoc, scalar, swagger } => {
                let redoc = match entry_from_raw(VisualizerKind::Redoc, redoc) {
                    Ok(entry) => entry,
                    Err(error) => {
                        return Err(error);
                    },
                };
                let scalar = match entry_from_raw(VisualizerKind::Scalar, scalar) {
                    Ok(entry) => entry,
                    Err(error) => {
                        return Err(error);
                    },
                };
                let swagger = match entry_from_raw(VisualizerKind::Swagger, swagger) {
                    Ok(entry) => entry,
                    Err(error) => {
                        return Err(error);
                    },
                };
                Ok(Some(OpenAPIConfig { redoc, scalar, swagger }))
            },
        }
    }
}

/// The initializer settings of an application, from which the visualizer
/// configuration is resolved.
#[derive(Debug)]
pub struct InitializerConfig<'a>(&'a Option<serde_json::Value>);

impl<'a> vstd::std_specs::convert::FromSpecImpl<&'a Option<serde_json::Value>> for InitializerConfig<'a> {
    open spec fn obeys_from_spec() -> bool {
        true
    }

    closed spec fn from_spec(initializers: &'a Option<serde_json::Value>) -> Self {
        InitializerConfig(initializers)
    }
}

impl<'a> From<&'a Option<serde_json::Value>> for InitializerConfig<'a> {
    /// Wraps the initializer settings of an application.
    fn from(initializers: &'a Option<serde_json::Value>) -> (config: Self)
        ensures
            config.settings() == settings_model(*initializers),
    {
        InitializerConfig(initializers)
    }
}

impl<'a> InitializerConfig<'a> {
    /// The settings as a tree: none where the application has no
    /// initializer settings.
    pub closed spec fn settings(self) -> Option<JsonModel> {
        settings_model(*self.0)
    }

    /// Reads the settings, applying no rule: what the `openapi` section
    /// holds for each visualizer, as it stands there.
    pub fn read(&self) -> (raw: RawSettings)
        ensures
            raw@ == raw_settings(self.settings()),
    {
        read_settings(self.0)
    }

    /// Resolves the visualizer configuration from the settings.
    ///
    /// Gives `Ok(None)` where the settings have no `openapi` section, the
    /// configuration where they have one that keeps the rules, and the first
    /// broken rule otherwise.
    pub fn resolve(&self) -> (result: Result<Option<OpenAPIConfig>, ConfigError>)
        ensures
            resolved_view(result) == resolved(self.settings()),
    {
        OpenAPIConfig::from_raw(self.read())
    }
}

/// The configuration that a slot holds: none while the slot is empty, and
/// none where it was resolved to no configuration.
pub open spec fn held_config(slot: Option<Option<OpenAPIConfig>>) -> Option<OpenAPIConfig> {
    match slot {
        Some(Some(config)) => Some(config),
        _ => None,
    }
}

/// The view of what a configuration slot holds.
pub open spec fn config_slot_view(slot: Option<Option<OpenAPIConfig>>) -> Option<
    Option<OpenAPIConfigView>,
> {
    match slot {
        Some(Some(config)) => Some(Some(config@)),
        Some(None) => Some(None),
        None => None,
    }
}

/// What a resolution gives when the slot holds `held`: the configuration
/// that is held, whatever the settings say; only for an empty slot what the
/// settings resolve to.
pub open spec fn resolved_once(
    held: Option<Option<OpenAPIConfigView>>,
    settings: Option<JsonModel>,
) -> Result<Option<OpenAPIConfigView>, ConfigError> {
    match held {
        Some(config) => Ok(config),
        None => resolved(settings),
    }
}

/// The first resolution that succeeds fixes the configuration: after it,
/// every resolution gives the same, whatever its settings, and none is
/// refused.
pub proof fn lemma_first_resolution_wins(
    held: Option<Option<OpenAPIConfigView>>,
    settings: Option<JsonModel>,
    later: Option<JsonModel>,
)
    requires
        resolved_once(held, settings) is Ok,
    ensures
        resolved_once(Some(resolved_once(held, settings)->Ok_0), later) == resolved_once(
            held,
            settings,
        ),
{
}

/// Records the visualizer configuration. The first configuration that is
/// recorded stays, be it none; a later one is dropped. Hands back what the
/// slot holds after the call, and never fails.
pub fn set_openapi_config(
    slot: &mut WriteOnce<Option<OpenAPIConfig>>,
    config: Option<OpenAPIConfig>,
) -> (result: Result<Option<&OpenAPIConfig>, ConfigError>)
    ensures
        final(slot)@ == spec_write(old(slot)@, config),
        match result {
            Ok(Some(held)) => held_config(final(slot)@) == Some(*held),
            Ok(None) => held_config(final(slot)@) is None,
            Err(_) => false,
        },
{
    Ok(slot.get_or_init(config).as_ref())
}

/// The configuration that was recorded, if one was.
pub fn get_openapi_config(slot: &WriteOnce<Option<OpenAPIConfig>>) -> (held: Option<&OpenAPIConfig>)
    ensures
        match held {
            Some(config) => held_config(slot@) == Some(*config),
            None => held_config(slot@) is None,
        },
{
    match slot.get() {
        Some(resolved) => resolved.as_ref(),
        None => None,
    }
}

/// Resolves the visualizer configuration, once for the process.
///
/// Where the slot holds a configuration already, that one is handed back
/// and the settings are not looked at. Where it holds none, the settings are
/// resolved: their configuration is recorded and handed back, or their error
/// is returned and the slot stays empty.
pub fn resolve_openapi_config<'a>(
    slot: &'a mut WriteOnce<Option<OpenAPIConfig>>,
    initializers: &InitializerConfig,
) -> (result: Result<Option<&'a OpenAPIConfig>, ConfigError>)
    ensures
        match result {
            Ok(config) => {
                &&& resolved_once(config_slot_view(old(slot)@), initializers.settings()) == Ok::<
                    Option<OpenAPIConfigView>,
                    ConfigError,
                >(config_slot_view(final(slot)@)->0)
                &&& final(slot)@ is Some
                &&& match config {
                    Some(held) => held_config(final(slot)@) == Some(*held),
                    None => held_config(final(slot)@) is None,
                }
            },
            Err(error) => {
                &&& resolved_once(config_slot_view(old(slot)@), initializers.settings()) == Err::<
                    Option<OpenAPIConfigView>,
                    ConfigError,
                >(error)
                &&& final(slot)@ == old(slot)@
            },
        },
        old(slot)@ is Some ==> final(slot)@ == old(slot)@,
{
    if !slot.is_set() {
        match initializers.resolve() {
            Ok(config) => {
                slot.try_set(config);
            },
            Err(error) => {
                return Err(error);
            },
        }
    }
    Ok(get_openapi_config(slot))
}

} // verus!
