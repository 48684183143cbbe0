use loco_openapi::config::{
    get_openapi_config, resolve_openapi_config, set_openapi_config, ConfigError,
    InitializerConfig, OpenAPIConfig, OpenAPIType, UrlField, VisualizerKind,
};
use loco_openapi::raw::{read_settings, RawEntry, RawSettings, RawUrl, RawVisualizer};
use loco_openapi::once::WriteOnce;
use serde_json::Value;

fn text(value: &str) -> Value {
    Value::String(value.to_string())
}

fn table(members: Vec<(&str, Value)>) -> Value {
    let mut map = serde_json::Map::new();
    for (name, value) in members {
        map.insert(name.to_string(), value);
    }
    Value::Object(map)
}

// Helper function to create a mock configuration
fn create_mock_config() -> Value {
    let mut openapi_config = serde_json::Map::new();
    openapi_config.insert(
        "swagger".to_string(),
        table(vec![("url", text("/swagger")), ("spec_json_url", text("/api-docs/openapi.json"))]),
    );
    openapi_config.insert(
        "redoc".to_string(),
        table(vec![
            ("url", text("/redoc")),
            ("spec_json_url", text("/redoc/openapi.json")),
            ("spec_yaml_url", text("/redoc/openapi.yaml")),
        ]),
    );
    openapi_config.insert(
        "scalar".to_string(),
        table(vec![
            ("url", text("/scalar")),
            ("spec_json_url", text("/scalar/openapi.json")),
            ("spec_yaml_url", text("/scalar/openapi.yaml")),
        ]),
    );
    table(vec![("openapi", Value::Object(openapi_config))])
}

fn resolve(settings: Value) -> Result<Option<OpenAPIConfig>, ConfigError> {
    let initializers = Some(settings);
    InitializerConfig::from(&initializers).resolve()
}

fn section(members: Vec<(&str, Value)>) -> Value {
    table(vec![("openapi", table(members))])
}

fn swagger_only() -> OpenAPIConfig {
    OpenAPIConfig {
        redoc: None,
        scalar: None,
        swagger: Some(OpenAPIType::Swagger {
            url: "/swagger".to_string(),
            spec_json_url: "/api-docs/openapi.json".to_string(),
            spec_yaml_url: None,
        }),
    }
}

#[test]
fn test_data_conversion() {
    // Test the conversion pipeline with valid data
    let initializers = Some(create_mock_config());

    // Convert to InitializerConfig and then to OpenAPIConfig
    let initializer_config: InitializerConfig = (&initializers).into();
    let openapi_config: Option<OpenAPIConfig> =
        initializer_config.resolve().expect("OpenAPIConfig should be created successfully");

    // Verify the conversion produces the expected result
    assert!(openapi_config.is_some(), "OpenAPIConfig should be created successfully");

    let config = openapi_config.unwrap();

    {
        let swagger = config.swagger.as_ref();
        assert!(swagger.is_some(), "Swagger config should be present");

        let expected = OpenAPIType::Swagger {
            url: "/swagger".to_string(),
            spec_json_url: "/api-docs/openapi.json".to_string(),
            spec_yaml_url: None,
        };
        assert_eq!(swagger, Some(&expected));
    }

    {
        let redoc = config.redoc.as_ref();
        assert!(redoc.is_some(), "Redoc config should be present");

        let expected = OpenAPIType::Redoc {
            url: "/redoc".to_string(),
            spec_json_url: Some("/redoc/openapi.json".to_string()),
            spec_yaml_url: Some("/redoc/openapi.yaml".to_string()),
        };
        assert_eq!(redoc, Some(&expected));
    }

    {
        let scalar = config.scalar.as_ref();
        assert!(scalar.is_some(), "Scalar config should be present");

        let expected = OpenAPIType::Scalar {
            url: "/scalar".to_string(),
            spec_json_url: Some("/scalar/openapi.json".to_string()),
            spec_yaml_url: Some("/scalar/openapi.yaml".to_string()),
        };
        assert_eq!(scalar, Some(&expected));
    }
}

#[test]
fn test_none_conversion() {
    // Test with None input
    let initializers: Option<Value> = None;

    // Convert to InitializerConfig and then to OpenAPIConfig
    let openapi_config: Option<OpenAPIConfig> =
        InitializerConfig::from(&initializers).resolve().expect("no settings are no error");

    // Verify the conversion handles None correctly
    assert!(openapi_config.is_none(), "OpenAPIConfig should be None");
}

#[test]
fn settings_without_section_resolve_to_none() {
    assert_eq!(resolve(table(vec![])), Ok(None));
    assert_eq!(resolve(table(vec![("mailer", table(vec![("url", text("/"))]))])), Ok(None));
    assert_eq!(resolve(table(vec![("openapi", Value::Null)])), Ok(None));
    assert_eq!(resolve(text("openapi")), Ok(None));
}

#[test]
fn empty_section_configures_no_visualizer() {
    assert_eq!(
        resolve(section(vec![])),
        Ok(Some(OpenAPIConfig { redoc: None, scalar: None, swagger: None }))
    );
    assert_eq!(
        resolve(section(vec![("redoc", Value::Null), ("rapidoc", table(vec![]))])),
        Ok(Some(OpenAPIConfig { redoc: None, scalar: None, swagger: None }))
    );
}

#[test]
fn swagger_alone_is_resolved() {
    let settings = section(vec![(
        "swagger",
        table(vec![("url", text("/swagger")), ("spec_json_url", text("/api-docs/openapi.json"))]),
    )]);
    assert_eq!(resolve(settings), Ok(Some(swagger_only())));
}

#[test]
fn optional_urls_may_be_missing_or_null() {
    let settings = section(vec![
        ("redoc", table(vec![("url", text("/redoc")), ("spec_json_url", Value::Null)])),
        ("scalar", table(vec![("url", text("/scalar")), ("spec_yaml_url", text("/s.yaml"))])),
    ]);
    assert_eq!(
        resolve(settings),
        Ok(Some(OpenAPIConfig {
            redoc: Some(OpenAPIType::Redoc {
                url: "/redoc".to_string(),
                spec_json_url: None,
                spec_yaml_url: None,
            }),
            scalar: Some(OpenAPIType::Scalar {
                url: "/scalar".to_string(),
                spec_json_url: None,
                spec_yaml_url: Some("/s.yaml".to_string()),
            }),
            swagger: None,
        }))
    );
}

#[test]
fn section_that_is_no_table_is_refused() {
    assert_eq!(resolve(table(vec![("openapi", text("/swagger"))])), Err(ConfigError::SectionNotTable));
    assert_eq!(
        resolve(table(vec![("openapi", Value::Array(vec![]))])),
        Err(ConfigError::SectionNotTable)
    );
    assert_eq!(
        resolve(table(vec![("openapi", Value::Bool(true))])),
        Err(ConfigError::SectionNotTable)
    );
}

#[test]
fn visualizer_that_is_no_table_is_refused() {
    assert_eq!(
        resolve(section(vec![("scalar", text("/scalar"))])),
        Err(ConfigError::VisualizerNotTable { kind: VisualizerKind::Scalar })
    );
    assert_eq!(
        resolve(section(vec![("swagger", Value::from(7))])),
        Err(ConfigError::VisualizerNotTable { kind: VisualizerKind::Swagger })
    );
}

#[test]
fn missing_url_is_refused() {
    assert_eq!(
        resolve(section(vec![("redoc", table(vec![("spec_json_url", text("/r.json"))]))])),
        Err(ConfigError::MissingUrl { kind: VisualizerKind::Redoc, field: UrlField::Url })
    );
    assert_eq!(
        resolve(section(vec![("scalar", table(vec![("url", Value::Null)]))])),
        Err(ConfigError::MissingUrl { kind: VisualizerKind::Scalar, field: UrlField::Url })
    );
}

#[test]
fn swagger_without_json_url_is_refused() {
    assert_eq!(
        resolve(section(vec![("swagger", table(vec![("url", text("/swagger"))]))])),
        Err(ConfigError::MissingUrl { kind: VisualizerKind::Swagger, field: UrlField::SpecJsonUrl })
    );
}

#[test]
fn url_that_is_no_string_is_refused() {
    assert_eq!(
        resolve(section(vec![("redoc", table(vec![("url", Value::from(80))]))])),
        Err(ConfigError::InvalidUrl { kind: VisualizerKind::Redoc, field: UrlField::Url })
    );
    assert_eq!(
        resolve(section(vec![(
            "redoc",
            table(vec![("url", text("/redoc")), ("spec_json_url", Value::Bool(true))])
        )])),
        Err(ConfigError::InvalidUrl { kind: VisualizerKind::Redoc, field: UrlField::SpecJsonUrl })
    );
    assert_eq!(
        resolve(section(vec![(
            "swagger",
            table(vec![
                ("url", text("/swagger")),
                ("spec_json_url", text("/s.json")),
                ("spec_yaml_url", table(vec![])),
            ])
        )])),
        Err(ConfigError::InvalidUrl { kind: VisualizerKind::Swagger, field: UrlField::SpecYamlUrl })
    );
}

#[test]
fn first_broken_rule_is_reported() {
    // Redoc comes before Swagger, and `url` before `spec_json_url`.
    let settings = section(vec![
        ("swagger", table(vec![("url", text("/swagger"))])),
        ("redoc", table(vec![("spec_json_url", Value::from(1))])),
    ]);
    assert_eq!(
        resolve(settings),
        Err(ConfigError::MissingUrl { kind: VisualizerKind::Redoc, field: UrlField::Url })
    );
}

#[test]
fn from_raw_applies_the_rules() {
    let raw = RawVisualizer {
        url: RawUrl::Text("/swagger".to_string()),
        spec_json_url: RawUrl::Text("/api-docs/openapi.json".to_string()),
        spec_yaml_url: RawUrl::Missing,
    };
    assert_eq!(
        OpenAPIType::from_raw(VisualizerKind::Swagger, raw),
        Ok(OpenAPIType::Swagger {
            url: "/swagger".to_string(),
            spec_json_url: "/api-docs/openapi.json".to_string(),
            spec_yaml_url: None,
        })
    );
    let raw = RawVisualizer {
        url: RawUrl::Text("/scalar".to_string()),
        spec_json_url: RawUrl::Missing,
        spec_yaml_url: RawUrl::Invalid,
    };
    assert_eq!(
        OpenAPIType::from_raw(VisualizerKind::Scalar, raw),
        Err(ConfigError::InvalidUrl { kind: VisualizerKind::Scalar, field: UrlField::SpecYamlUrl })
    );
}

#[test]
fn names_of_kinds_and_fields() {
    assert_eq!(VisualizerKind::Redoc.name(), "redoc");
    assert_eq!(VisualizerKind::Scalar.name(), "scalar");
    assert_eq!(VisualizerKind::Swagger.name(), "swagger");
    assert_eq!(UrlField::Url.name(), "url");
    assert_eq!(UrlField::SpecJsonUrl.name(), "spec_json_url");
    assert_eq!(UrlField::SpecYamlUrl.name(), "spec_yaml_url");
}

#[test]
fn first_configuration_stays() {
    let mut slot = WriteOnce::new();
    assert_eq!(get_openapi_config(&slot), None);
    assert_eq!(set_openapi_config(&mut slot, Some(swagger_only())), Ok(Some(&swagger_only())));
    let other = OpenAPIConfig { redoc: None, scalar: None, swagger: None };
    assert_eq!(set_openapi_config(&mut slot, Some(other)), Ok(Some(&swagger_only())));
    assert_eq!(set_openapi_config(&mut slot, None), Ok(Some(&swagger_only())));
    assert_eq!(get_openapi_config(&slot), Some(&swagger_only()));
}

#[test]
fn first_configuration_stays_when_it_is_none() {
    let mut slot = WriteOnce::new();
    assert_eq!(set_openapi_config(&mut slot, None), Ok(None));
    assert_eq!(set_openapi_config(&mut slot, Some(swagger_only())), Ok(None));
    assert_eq!(get_openapi_config(&slot), None);
}

#[test]
fn resolving_twice_gives_the_first_configuration() {
    let mut slot = WriteOnce::new();
    let first = Some(section(vec![(
        "swagger",
        table(vec![("url", text("/swagger")), ("spec_json_url", text("/api-docs/openapi.json"))]),
    )]));
    assert_eq!(
        resolve_openapi_config(&mut slot, &InitializerConfig::from(&first)),
        Ok(Some(&swagger_only()))
    );
    let second = Some(section(vec![("redoc", table(vec![("url", text("/redoc"))]))]));
    assert_eq!(
        resolve_openapi_config(&mut slot, &InitializerConfig::from(&second)),
        Ok(Some(&swagger_only()))
    );
    let refused = Some(section(vec![("redoc", text("/redoc"))]));
    assert_eq!(
        resolve_openapi_config(&mut slot, &InitializerConfig::from(&refused)),
        Ok(Some(&swagger_only()))
    );
    assert_eq!(get_openapi_config(&slot), Some(&swagger_only()));
}

#[test]
fn resolving_without_section_is_kept_too() {
    let mut slot = WriteOnce::new();
    let first = Some(table(vec![]));
    assert_eq!(resolve_openapi_config(&mut slot, &InitializerConfig::from(&first)), Ok(None));
    assert!(slot.is_set());
    let second = Some(create_mock_config());
    assert_eq!(resolve_openapi_config(&mut slot, &InitializerConfig::from(&second)), Ok(None));
    assert_eq!(get_openapi_config(&slot), None);
}

#[test]
fn refused_resolution_leaves_the_slot_empty() {
    let mut slot = WriteOnce::new();
    let refused = Some(section(vec![("swagger", table(vec![("url", text("/swagger"))]))]));
    assert_eq!(
        resolve_openapi_config(&mut slot, &InitializerConfig::from(&refused)),
        Err(ConfigError::MissingUrl { kind: VisualizerKind::Swagger, field: UrlField::SpecJsonUrl })
    );
    assert!(!slot.is_set());
    let settings = Some(create_mock_config());
    let resolved = resolve_openapi_config(&mut slot, &InitializerConfig::from(&settings))
        .expect("the settings keep the rules")
        .expect("the settings have a section");
    assert_eq!(
        resolved.swagger,
        Some(OpenAPIType::Swagger {
            url: "/swagger".to_string(),
            spec_json_url: "/api-docs/openapi.json".to_string(),
            spec_yaml_url: None,
        })
    );
}

#[test]
fn errors_in_words() {
    assert_eq!(ConfigError::SectionNotTable.message(), "openapi: expected a table");
    assert_eq!(
        ConfigError::VisualizerNotTable { kind: VisualizerKind::Redoc }.message(),
        "openapi.redoc: expected a table"
    );
    assert_eq!(
        ConfigError::MissingUrl { kind: VisualizerKind::Swagger, field: UrlField::SpecJsonUrl }
            .message(),
        "openapi.swagger.spec_json_url: missing"
    );
    assert_eq!(
        ConfigError::MissingUrl { kind: VisualizerKind::Scalar, field: UrlField::Url }.message(),
        "openapi.scalar.url: missing"
    );
    assert_eq!(
        ConfigError::InvalidUrl { kind: VisualizerKind::Redoc, field: UrlField::SpecYamlUrl }
            .message(),
        "openapi.redoc.spec_yaml_url: expected a string"
    );
}

#[test]
fn kind_of_an_entry() {
    assert_eq!(swagger_only().swagger.map(|entry| entry.kind()), Some(VisualizerKind::Swagger));
    let redoc = OpenAPIType::Redoc {
        url: "/redoc".to_string(),
        spec_json_url: None,
        spec_yaml_url: None,
    };
    assert_eq!(redoc.kind(), VisualizerKind::Redoc);
    assert_eq!(redoc.clone(), redoc);
}

#[test]
fn settings_are_read_as_they_stand() {
    let settings = Some(section(vec![
        ("redoc", text("/redoc")),
        ("scalar", Value::Null),
        (
            "swagger",
            table(vec![
                ("url", text("/swagger")),
                ("spec_json_url", Value::from(1)),
                ("spec_yaml_url", Value::Null),
                ("theme", text("dark")),
            ]),
        ),
    ]));
    let expected = RawSettings::Table {
        redoc: RawEntry::NotTable,
        scalar: RawEntry::Missing,
        swagger: RawEntry::Table(RawVisualizer {
            url: RawUrl::Text("/swagger".to_string()),
            spec_json_url: RawUrl::Invalid,
            spec_yaml_url: RawUrl::Missing,
        }),
    };
    assert_eq!(read_settings(&settings), expected);
    assert_eq!(InitializerConfig::from(&settings).read(), expected);
}

#[test]
fn settings_without_section_are_read_as_missing() {
    assert_eq!(read_settings(&None), RawSettings::Missing);
    assert_eq!(read_settings(&Some(table(vec![]))), RawSettings::Missing);
    assert_eq!(read_settings(&Some(table(vec![("openapi", Value::Null)]))), RawSettings::Missing);
    assert_eq!(read_settings(&Some(Value::from(3))), RawSettings::Missing);
    assert_eq!(
        read_settings(&Some(table(vec![("openapi", Value::from(3))]))),
        RawSettings::NotTable
    );
    assert_eq!(
        read_settings(&Some(section(vec![]))),
        RawSettings::Table {
            redoc: RawEntry::Missing,
            scalar: RawEntry::Missing,
            swagger: RawEntry::Missing,
        }
    );
}

#[test]
fn rules_are_applied_to_what_was_read() {
    assert_eq!(OpenAPIConfig::from_raw(RawSettings::Missing), Ok(None));
    assert_eq!(OpenAPIConfig::from_raw(RawSettings::NotTable), Err(ConfigError::SectionNotTable));
    let raw = RawSettings::Table {
        redoc: RawEntry::Missing,
        scalar: RawEntry::Missing,
        swagger: RawEntry::Table(RawVisualizer {
            url: RawUrl::Text("/swagger".to_string()),
            spec_json_url: RawUrl::Text("/api-docs/openapi.json".to_string()),
            spec_yaml_url: RawUrl::Missing,
        }),
    };
    assert_eq!(OpenAPIConfig::from_raw(raw), Ok(Some(swagger_only())));
    let raw = RawSettings::Table {
        redoc: RawEntry::Missing,
        scalar: RawEntry::NotTable,
        swagger: RawEntry::Table(RawVisualizer {
            url: RawUrl::Missing,
            spec_json_url: RawUrl::Missing,
            spec_yaml_url: RawUrl::Missing,
        }),
    };
    assert_eq!(
        OpenAPIConfig::from_raw(raw),
        Err(ConfigError::VisualizerNotTable { kind: VisualizerKind::Scalar })
    );
}
