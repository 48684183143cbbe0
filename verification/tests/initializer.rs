use loco_openapi::config::{
    get_openapi_config, ConfigError, InitializerConfig, OpenAPIConfig, OpenAPIType, UrlField,
    VisualizerKind,
};
use loco_openapi::document::{Fragment, HttpMethod, Info, Operation, Schema, SpecDocument};
use loco_openapi::once::WriteOnce;
use loco_openapi::openapi::{add_route, clear_routes, openapi, FragmentRegistry};
use loco_openapi::utils::{get_openapi_spec, Content, Endpoint};
use loco_openapi::OpenapiInitializerWithSetup;
use serde_json::Value;

fn text(value: &str) -> Value {
    Value::String(value.to_string())
}

fn table(members: Vec<(&str, Value)>) -> Value {
    let mut map = serde_json::Map::new();
    for (name, value) in members {
        map.insert(name.to_string(), value);
    }
    Value::Object(map)
}

fn swagger_settings() -> Option<Value> {
    Some(table(vec![(
        "openapi",
        table(vec![(
            "swagger",
            table(vec![
                ("url", text("/swagger")),
                ("spec_json_url", text("/api-docs/openapi.json")),
            ]),
        )]),
    )]))
}

fn redoc_settings() -> Option<Value> {
    Some(table(vec![("openapi", table(vec![("redoc", table(vec![("url", text("/redoc"))]))]))]))
}

fn broken_settings() -> Option<Value> {
    Some(table(vec![("openapi", table(vec![("swagger", table(vec![("url", text("/swagger"))]))]))]))
}

fn base_document() -> SpecDocument {
    SpecDocument {
        info: Info {
            title: "Loco Demo Test".to_string(),
            version: "0.1.0".to_string(),
            description: Some("Test OpenAPI spec for loco-openapi".to_string()),
        },
        operations: vec![],
        schemas: vec![],
        security_schemes: vec![],
    }
}

fn get_album() -> Fragment {
    Fragment {
        operations: vec![Operation::new(
            "/api/album/get_album",
            HttpMethod::Get,
            "{\"tags\":[\"album\"],\"responses\":{\"200\":{\"description\":\"Album found\",\
             \"content\":{\"application/json\":{\"schema\":\
             {\"$ref\":\"#/components/schemas/Album\"}}}}}}",
        )],
        schemas: vec![Schema::new(
            "Album",
            "{\"type\":\"object\",\"required\":[\"title\",\"rating\"],\"properties\":\
             {\"title\":{\"type\":\"string\"},\"rating\":{\"type\":\"integer\"}}}",
        )],
    }
}

fn endpoint(url: &str, content: Content) -> Endpoint {
    Endpoint { url: url.to_string(), content }
}

fn swagger_endpoints() -> Vec<Endpoint> {
    vec![
        endpoint("/swagger", Content::Viewer(VisualizerKind::Swagger)),
        endpoint("/api-docs/openapi.json", Content::Json),
    ]
}

#[test]
fn initializer_is_named_openapi() {
    assert_eq!(OpenapiInitializerWithSetup::default().name(), "openapi");
    assert_eq!(OpenapiInitializerWithSetup::new(base_document(), None).name(), "openapi");
}

#[test]
fn album_route_is_documented_and_exposed() {
    let mut registry = FragmentRegistry::new();
    let handler = openapi(&mut registry, "get_album", get_album());
    assert_eq!(handler, "get_album");

    let mut config_slot = WriteOnce::new();
    let mut spec_slot = WriteOnce::new();
    let settings = swagger_settings();
    let initializer = OpenapiInitializerWithSetup::new(base_document(), None);
    let endpoints = initializer
        .after_routes(&mut config_slot, &mut spec_slot, &registry, &InitializerConfig::from(&settings))
        .expect("the settings keep the rules");

    assert_eq!(endpoints, swagger_endpoints());
    let document = get_openapi_spec(&spec_slot).expect("the document is published");
    assert_eq!(document.info, base_document().info);
    assert_eq!(document.operations, get_album().operations);
    assert_eq!(document.operations[0].path, "/api/album/get_album");
    assert_eq!(document.operations[0].method, HttpMethod::Get);
    assert_eq!(document.schemas, get_album().schemas);
    assert_eq!(
        get_openapi_config(&config_slot),
        Some(&OpenAPIConfig {
            redoc: None,
            scalar: None,
            swagger: Some(OpenAPIType::Swagger {
                url: "/swagger".to_string(),
                spec_json_url: "/api-docs/openapi.json".to_string(),
                spec_yaml_url: None,
            }),
        })
    );
}

#[test]
fn without_section_the_document_is_assembled_and_not_exposed() {
    let mut registry = FragmentRegistry::new();
    add_route(&mut registry, get_album());
    let mut config_slot = WriteOnce::new();
    let mut spec_slot = WriteOnce::new();
    let settings = Some(table(vec![]));
    let endpoints = OpenapiInitializerWithSetup::default()
        .after_routes(&mut config_slot, &mut spec_slot, &registry, &InitializerConfig::from(&settings))
        .expect("no section is no error");
    assert_eq!(endpoints, vec![]);
    assert!(config_slot.is_set());
    assert_eq!(get_openapi_config(&config_slot), None);
    let document = get_openapi_spec(&spec_slot).expect("the document is published");
    assert_eq!(document.info, SpecDocument::new().info);
    assert_eq!(document.operations, get_album().operations);
}

#[test]
fn without_settings_the_document_is_assembled_and_not_exposed() {
    let registry = FragmentRegistry::new();
    let mut config_slot = WriteOnce::new();
    let mut spec_slot = WriteOnce::new();
    let settings = None;
    let endpoints = OpenapiInitializerWithSetup::new(base_document(), None)
        .after_routes(&mut config_slot, &mut spec_slot, &registry, &InitializerConfig::from(&settings))
        .expect("no settings are no error");
    assert_eq!(endpoints, vec![]);
    assert_eq!(get_openapi_spec(&spec_slot), Some(&base_document()));
}

#[test]
fn refused_settings_leave_both_slots_empty() {
    let mut registry = FragmentRegistry::new();
    add_route(&mut registry, get_album());
    let mut config_slot = WriteOnce::new();
    let mut spec_slot = WriteOnce::new();
    let settings = broken_settings();
    let result = OpenapiInitializerWithSetup::default().after_routes(
        &mut config_slot,
        &mut spec_slot,
        &registry,
        &InitializerConfig::from(&settings),
    );
    assert_eq!(
        result,
        Err(ConfigError::MissingUrl { kind: VisualizerKind::Swagger, field: UrlField::SpecJsonUrl })
    );
    assert!(!config_slot.is_set());
    assert!(!spec_slot.is_set());
}

#[test]
fn second_run_keeps_configuration_and_document() {
    let mut registry = FragmentRegistry::new();
    add_route(&mut registry, get_album());
    let mut config_slot = WriteOnce::new();
    let mut spec_slot = WriteOnce::new();

    let settings = swagger_settings();
    let first = OpenapiInitializerWithSetup::new(base_document(), None)
        .after_routes(&mut config_slot, &mut spec_slot, &registry, &InitializerConfig::from(&settings))
        .expect("the settings keep the rules");
    assert_eq!(first, swagger_endpoints());

    add_route(
        &mut registry,
        Fragment { operations: vec![Operation::new("/late", HttpMethod::Get, "late")], schemas: vec![] },
    );
    let settings = redoc_settings();
    let second = OpenapiInitializerWithSetup::default()
        .after_routes(&mut config_slot, &mut spec_slot, &registry, &InitializerConfig::from(&settings))
        .expect("a second run is never refused");
    assert_eq!(second, swagger_endpoints());

    let settings = broken_settings();
    let third = OpenapiInitializerWithSetup::default()
        .after_routes(&mut config_slot, &mut spec_slot, &registry, &InitializerConfig::from(&settings))
        .expect("a later run is never refused");
    assert_eq!(third, swagger_endpoints());

    let document = get_openapi_spec(&spec_slot).expect("the document is published");
    assert_eq!(document.info, base_document().info);
    assert_eq!(document.operations, get_album().operations);
}

#[test]
fn extra_fragments_come_before_registered_ones() {
    let mut registry = FragmentRegistry::new();
    add_route(
        &mut registry,
        Fragment {
            operations: vec![
                Operation::new("/registered", HttpMethod::Get, "registered"),
                Operation::new("/shared", HttpMethod::Get, "registered"),
            ],
            schemas: vec![],
        },
    );
    let extra = vec![Fragment {
        operations: vec![
            Operation::new("/shared", HttpMethod::Get, "extra"),
            Operation::new("/extra", HttpMethod::Get, "extra"),
        ],
        schemas: vec![],
    }];
    let mut config_slot = WriteOnce::new();
    let mut spec_slot = WriteOnce::new();
    let settings = None;
    OpenapiInitializerWithSetup::new(base_document(), Some(extra))
        .after_routes(&mut config_slot, &mut spec_slot, &registry, &InitializerConfig::from(&settings))
        .expect("no settings are no error");
    let document = get_openapi_spec(&spec_slot).expect("the document is published");
    assert_eq!(
        document.operations,
        vec![
            Operation::new("/shared", HttpMethod::Get, "registered"),
            Operation::new("/extra", HttpMethod::Get, "extra"),
            Operation::new("/registered", HttpMethod::Get, "registered"),
        ]
    );
}

#[test]
fn two_applications_with_a_reset_between_them() {
    let mut registry = FragmentRegistry::new();

    add_route(&mut registry, get_album());
    let mut first_config = WriteOnce::new();
    let mut first_spec = WriteOnce::new();
    let settings = swagger_settings();
    OpenapiInitializerWithSetup::default()
        .after_routes(&mut first_config, &mut first_spec, &registry, &InitializerConfig::from(&settings))
        .expect("the settings keep the rules");

    clear_routes(&mut registry);
    add_route(
        &mut registry,
        Fragment { operations: vec![Operation::new("/song", HttpMethod::Get, "song")], schemas: vec![] },
    );
    let mut second_config = WriteOnce::new();
    let mut second_spec = WriteOnce::new();
    let settings = redoc_settings();
    let endpoints = OpenapiInitializerWithSetup::default()
        .after_routes(&mut second_config, &mut second_spec, &registry, &InitializerConfig::from(&settings))
        .expect("the settings keep the rules");

    assert_eq!(endpoints, vec![endpoint("/redoc", Content::Viewer(VisualizerKind::Redoc))]);
    let first = get_openapi_spec(&first_spec).expect("the first document is published");
    assert_eq!(first.operations, get_album().operations);
    let second = get_openapi_spec(&second_spec).expect("the second document is published");
    assert_eq!(second.operations, vec![Operation::new("/song", HttpMethod::Get, "song")]);
    assert!(second.schemas.is_empty());
}
