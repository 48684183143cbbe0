//! The visualizer settings as they are read, before any rule is applied.
//!
//! Reading tells apart, for the `openapi` section, for the entry of each
//! visualizer in it and for each URL of an entry, whether the thing is
//! there and whether it has the right shape: a table for section and
//! entries, a string for a URL. A name that holds null counts as a name that
//! is not there. Which of these is an error is not decided here.

use crate::config::{UrlField, VisualizerKind};
use crate::json::{as_str, get, is_null, is_object, json_model, JsonModel};
use vstd::prelude::*;

verus! {

/// What a visualizer's entry holds under the name of one URL.
#[derive(Debug, PartialEq, Eq)]
pub enum RawUrl {
    /// Nothing, or null.
    Missing,
    /// A string.
    Text(String),
    /// Something that is no string.
    Invalid,
}

pub enum RawUrlView {
    Missing,
    Text(Seq<char>),
    Invalid,
}

impl View for RawUrl {
    type V = RawUrlView;

    open spec fn view(&self) -> RawUrlView {
        match self {
            RawUrl::Missing => RawUrlView::Missing,
            RawUrl::Text(text) => RawUrlView::Text(text@),
            RawUrl::Invalid => RawUrlView::Invalid,
        }
    }
}

/// A visualizer's entry as it was read, before any rule is applied.
#[derive(Debug, PartialEq, Eq)]
pub struct RawVisualizer {
    pub url: RawUrl,
    pub spec_json_url: RawUrl,
    pub spec_yaml_url: RawUrl,
}

pub struct RawVisualizerView {
    pub url: RawUrlView,
    pub spec_json_url: RawUrlView,
    pub spec_yaml_url: RawUrlView,
}

impl View for RawVisualizer {
    type V = RawVisualizerView;

    open spec fn view(&self) -> RawVisualizerView {
        RawVisualizerView {
            url: self.url@,
            spec_json_url: self.spec_json_url@,
            spec_yaml_url: self.spec_yaml_url@,
        }
    }
}

/// What the `openapi` section holds under the name of one visualizer.
#[derive(Debug, PartialEq, Eq)]
pub enum RawEntry {
    /// Nothing, or null.
    Missing,
    /// Something that is no table.
    NotTable,
    /// A table, with its three URLs.
    Table(RawVisualizer),
}

pub enum RawEntryView {
    Missing,
    NotTable,
    Table(RawVisualizerView),
}

impl View for RawEntry {
    type V = RawEntryView;

    open spec fn view(&self) -> RawEntryView {
        match self {
            RawEntry::Missing => RawEntryView::Missing,
            RawEntry::NotTable => RawEntryView::NotTable,
            RawEntry::Table(raw) => RawEntryView::Table(raw@),
        }
    }
}

/// What the initializer settings hold under the name `openapi`.
#[derive(Debug, PartialEq, Eq)]
pub enum RawSettings {
    /// Nothing, or null; or there are no settings at all.
    Missing,
    /// Something that is no table.
    NotTable,
    /// A table, with the entries of the three visualizers.
    Table { redoc: RawEntry, scalar: RawEntry, swagger: RawEntry },
}

pub enum RawSettingsView {
    Missing,
    NotTable,
    Table { redoc: RawEntryView, scalar: RawEntryView, swagger: RawEntryView },
}

impl View for RawSettings {
    type V = RawSettingsView;

    open spec fn view(&self) -> RawSettingsView {
        match self {
            RawSettings::Missing => RawSettingsView::Missing,
            RawSettings::NotTable => RawSettingsView::NotTable,
            RawSettings::Table { redoc, scalar, swagger } => RawSettingsView::Table {
                redoc: redoc@,
                scalar: scalar@,
                swagger: swagger@,
            },
        }
    }
}

/// The member of the table `value` under `name`: none where `value` is no
/// table, has no such member, or holds null there.
pub open spec fn member(value: JsonModel, name: Seq<char>) -> Option<JsonModel> {
    match value {
        JsonModel::Object(members) => if members.contains_key(name) && !(members[name] is Null) {
            Some(members[name])
        } else {
            None
        },
        _ => None,
    }
}

/// What the table `entry` holds under the name of `field`.
pub open spec fn raw_url(entry: JsonModel, field: UrlField) -> RawUrlView {
    match member(entry, field.spec_name()) {
        None => RawUrlView::Missing,
        Some(JsonModel::Text(text)) => RawUrlView::Text(text),
        Some(_) => RawUrlView::Invalid,
    }
}

/// The three URLs of the table `entry`.
pub open spec fn raw_visualizer(entry: JsonModel) -> RawVisualizerView {
    RawVisualizerView {
        url: raw_url(entry, UrlField::Url),
        spec_json_url: raw_url(entry, UrlField::SpecJsonUrl),
        spec_yaml_url: raw_url(entry, UrlField::SpecYamlUrl),
    }
}

/// What the table `section` holds under the name of the visualizer `kind`.
pub open spec fn raw_entry(section: JsonModel, kind: VisualizerKind) -> RawEntryView {
    match member(section, kind.spec_name()) {
        None => RawEntryView::Missing,
        Some(entry) => if entry is Object {
            RawEntryView::Table(raw_visualizer(entry))
        } else {
            RawEntryView::NotTable
        },
    }
}

/// What the initializer settings hold under the name `openapi`.
pub open spec fn raw_settings(settings: Option<JsonModel>) -> RawSettingsView {
    match settings {
        None => RawSettingsView::Missing,
        Some(settings) => match member(settings, "openapi"@) {
            None => RawSettingsView::Missing,
            Some(section) => if section is Object {
                RawSettingsView::Table {
                    redoc: raw_entry(section, VisualizerKind::Redoc),
                    scalar: raw_entry(section, VisualizerKind::Scalar),
                    swagger: raw_entry(section, VisualizerKind::Swagger),
                }
            } else {
                RawSettingsView::NotTable
            },
        },
    }
}

/// The tree of optional settings.
pub open spec fn settings_model(settings: Option<serde_json::Value>) -> Option<JsonModel> {
    match settings {
        Some(value) => Some(json_model(value)),
        None => None,
    }
}

/// The member of the table `value` under `name`, null counting as none.
fn read_member<'a>(value: &'a serde_json::Value, name: &str) -> (found: Option<
    &'a serde_json::Value,
>)
    ensures
        match found {
            Some(inner) => member(json_model(*value), name@) == Some(json_model(*inner)),
            None => member(json_model(*value), name@) is None,
        },
{
    match get(value, name) {
        Some(inner) => if is_null(inner) {
            None
        } else {
            Some(inner)
        },
        None => None,
    }
}

/// What the table `entry` holds under the name of `field`.
fn read_url(entry: &serde_json::Value, field: UrlField) -> (raw: RawUrl)
    ensures
        raw@ == raw_url(json_model(*entry), field),
{
    match read_member(entry, field.name()) {
        None => RawUrl::Missing,
        Some(inner) => match as_str(inner) {
            Some(text) => RawUrl::Text(text.to_owned()),
            None => RawUrl::Invalid,
        },
    }
}

/// What the table `section` holds under the name of the visualizer `kind`.
fn read_entry(section: &serde_json::Value, kind: VisualizerKind) -> (raw: RawEntry)
    ensures
        raw@ == raw_entry(json_model(*section), kind),
{
    match read_member(section, kind.name()) {
        None => RawEntry::Missing,
        Some(entry) => if is_object(entry) {
            RawEntry::Table(
                RawVisualizer {
                    url: read_url(entry, UrlField::Url),
                    spec_json_url: read_url(entry, UrlField::SpecJsonUrl),
                    spec_yaml_url: read_url(entry, UrlField::SpecYamlUrl),
                },
            )
        } else {
            RawEntry::NotTable
        },
    }
}

/// Reads what the initializer settings hold under the name `openapi`.
pub fn read_settings(settings: &Option<serde_json::Value>) -> (raw: RawSettings)
    ensures
        raw@ == raw_settings(settings_model(*settings)),
{
    let settings = match settings {
        Some(settings) => settings,
        None => {
            return RawSettings::Missing;
        },
    };
    match read_member(settings, "openapi") {
        None => RawSettings::Missing,
        Some(section) => if is_object(section) {
            RawSettings::Table {
                redoc: read_entry(section, VisualizerKind::Redoc),
                scalar: read_entry(section, VisualizerKind::Scalar),
                swagger: read_entry(section, VisualizerKind::Swagger),
            }
        } else {
            RawSettings::NotTable
        },
    }
}

} // verus!
