use loco_openapi::config::{OpenAPIConfig, OpenAPIType, VisualizerKind};
use loco_openapi::utils::{add_openapi_endpoints, mount, wire, Content, Endpoint};

fn endpoint(url: &str, content: Content) -> Endpoint {
    Endpoint { url: url.to_string(), content }
}

fn swagger(yaml: Option<&str>) -> OpenAPIType {
    OpenAPIType::Swagger {
        url: "/swagger".to_string(),
        spec_json_url: "/api-docs/openapi.json".to_string(),
        spec_yaml_url: yaml.map(str::to_string),
    }
}

fn redoc(json: Option<&str>, yaml: Option<&str>) -> OpenAPIType {
    OpenAPIType::Redoc {
        url: "/redoc".to_string(),
        spec_json_url: json.map(str::to_string),
        spec_yaml_url: yaml.map(str::to_string),
    }
}

fn scalar(json: Option<&str>, yaml: Option<&str>) -> OpenAPIType {
    OpenAPIType::Scalar {
        url: "/scalar".to_string(),
        spec_json_url: json.map(str::to_string),
        spec_yaml_url: yaml.map(str::to_string),
    }
}

#[test]
fn swagger_with_json_and_no_yaml_mounts_two_routes() {
    let config = OpenAPIConfig { redoc: None, scalar: None, swagger: Some(swagger(None)) };
    let mounted = wire(vec![], &config);
    assert_eq!(mounted.len(), 2);
    assert_eq!(
        mounted,
        vec![
            endpoint("/swagger", Content::Viewer(VisualizerKind::Swagger)),
            endpoint("/api-docs/openapi.json", Content::Json),
        ]
    );
}

#[test]
fn swagger_with_yaml_mounts_three_routes() {
    let config = OpenAPIConfig {
        redoc: None,
        scalar: None,
        swagger: Some(swagger(Some("/api-docs/openapi.yaml"))),
    };
    assert_eq!(
        wire(vec![], &config),
        vec![
            endpoint("/swagger", Content::Viewer(VisualizerKind::Swagger)),
            endpoint("/api-docs/openapi.json", Content::Json),
            endpoint("/api-docs/openapi.yaml", Content::Yaml),
        ]
    );
}

#[test]
fn viewer_without_document_urls_mounts_one_route() {
    let config = OpenAPIConfig { redoc: Some(redoc(None, None)), scalar: None, swagger: None };
    assert_eq!(
        wire(vec![], &config),
        vec![endpoint("/redoc", Content::Viewer(VisualizerKind::Redoc))]
    );
}

#[test]
fn no_visualizer_mounts_no_route() {
    let config = OpenAPIConfig { redoc: None, scalar: None, swagger: None };
    assert_eq!(wire(vec![], &config), vec![]);
}

#[test]
fn visualizers_are_mounted_in_fixed_order() {
    let config = OpenAPIConfig {
        redoc: Some(redoc(Some("/redoc/openapi.json"), Some("/redoc/openapi.yaml"))),
        scalar: Some(scalar(None, Some("/scalar/openapi.yaml"))),
        swagger: Some(swagger(Some("/swagger/openapi.yaml"))),
    };
    assert_eq!(
        wire(vec![], &config),
        vec![
            endpoint("/redoc", Content::Viewer(VisualizerKind::Redoc)),
            endpoint("/redoc/openapi.json", Content::Json),
            endpoint("/redoc/openapi.yaml", Content::Yaml),
            endpoint("/scalar", Content::Viewer(VisualizerKind::Scalar)),
            endpoint("/scalar/openapi.yaml", Content::Yaml),
            endpoint("/swagger", Content::Viewer(VisualizerKind::Swagger)),
            endpoint("/api-docs/openapi.json", Content::Json),
            endpoint("/swagger/openapi.yaml", Content::Yaml),
        ]
    );
}

#[test]
fn wiring_keeps_what_is_mounted() {
    let config = OpenAPIConfig { redoc: None, scalar: Some(scalar(None, None)), swagger: None };
    assert_eq!(
        wire(vec![endpoint("/health", Content::Json)], &config),
        vec![
            endpoint("/health", Content::Json),
            endpoint("/scalar", Content::Viewer(VisualizerKind::Scalar)),
        ]
    );
}

#[test]
fn entry_in_the_place_of_another_visualizer_mounts_nothing() {
    let config = OpenAPIConfig { redoc: Some(swagger(None)), scalar: None, swagger: None };
    assert_eq!(wire(vec![], &config), vec![]);
    assert_eq!(mount(vec![], VisualizerKind::Scalar, &Some(redoc(None, None))), vec![]);
    assert_eq!(
        mount(vec![], VisualizerKind::Redoc, &Some(redoc(None, None))),
        vec![endpoint("/redoc", Content::Viewer(VisualizerKind::Redoc))]
    );
    assert_eq!(mount(vec![], VisualizerKind::Swagger, &None), vec![]);
}

#[test]
fn document_endpoints_are_json_then_yaml() {
    let json = Some("/openapi.json".to_string());
    let yaml = Some("/openapi.yaml".to_string());
    assert_eq!(
        add_openapi_endpoints(vec![], &json, &yaml),
        vec![endpoint("/openapi.json", Content::Json), endpoint("/openapi.yaml", Content::Yaml)]
    );
    assert_eq!(
        add_openapi_endpoints(vec![], &None, &yaml),
        vec![endpoint("/openapi.yaml", Content::Yaml)]
    );
    assert_eq!(
        add_openapi_endpoints(vec![], &json, &None),
        vec![endpoint("/openapi.json", Content::Json)]
    );
    assert_eq!(add_openapi_endpoints(vec![], &None, &None), vec![]);
}
