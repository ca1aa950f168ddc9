use qdrant_toolkit::config_validator::{ConfigError, ConfigValidator};
use qdrant_toolkit::yaml::{YamlNumber, YamlValue};

#[test]
fn test_validate_valid_config() {
    let validator = ConfigValidator::new();
    let yaml = r#"
storage:
  replication_factor: 2
  write_consistency_factor: 1
cluster:
  enabled: true
  p2p:
    port: 6335
"#;

    let result = validator.validate_yaml(yaml).unwrap();
    assert!(result.valid);
    assert!(result.errors.is_empty());
}

#[test]
fn test_validate_invalid_config() {
    let validator = ConfigValidator::new();
    let yaml = r#"
storage:
  replication_factor: 2
  write_consistency_factor: 3
"#;

    let result = validator.validate_yaml(yaml).unwrap();
    assert!(!result.valid);
    assert!(!result.errors.is_empty());
}

#[test]
fn test_validate_warnings() {
    let validator = ConfigValidator::new();
    let yaml = r#"
storage:
  replication_factor: 1
"#;

    let result = validator.validate_yaml(yaml).unwrap();
    assert!(result.valid);
    assert!(!result.warnings.is_empty());
}

#[test]
fn consistency_error_message() {
    let v = ConfigValidator::new();
    let r = v
        .validate_yaml("storage:\n  replication_factor: 2\n  write_consistency_factor: 3\n")
        .unwrap();
    assert_eq!(r.errors.len(), 1);
    assert_eq!(r.errors[0].field, "storage.write_consistency_factor");
    assert_eq!(
        r.errors[0].message,
        "Write consistency factor (3) cannot exceed replication factor (2)"
    );
    assert!(r.warnings.is_empty());
}

#[test]
fn zero_replication_factor() {
    let v = ConfigValidator::new();
    let r = v.validate_yaml("storage:\n  replication_factor: 0\n").unwrap();
    assert!(!r.valid);
    assert_eq!(r.errors[0].field, "storage.replication_factor");
    assert_eq!(r.errors[0].message, "Replication factor cannot be 0");
}

#[test]
fn cluster_without_port_and_low_tick() {
    let v = ConfigValidator::new();
    let r = v
        .validate_yaml("cluster:\n  enabled: true\n  consensus:\n    tick_period_ms: 10\n")
        .unwrap();
    assert!(!r.valid);
    assert_eq!(r.errors.len(), 1);
    assert_eq!(r.errors[0].field, "cluster.p2p.port");
    assert_eq!(r.warnings.len(), 1);
    assert_eq!(r.warnings[0].message, "Tick period (10 ms) is very low");
    assert_eq!(r.warnings[0].suggestion, "Use at least 100ms for stability");
}

#[test]
fn disabled_cluster_is_not_checked() {
    let v = ConfigValidator::new();
    let r = v
        .validate_yaml("cluster:\n  enabled: false\n  consensus:\n    tick_period_ms: 10\n")
        .unwrap();
    assert!(r.valid);
    assert!(r.warnings.is_empty());
}

#[test]
fn quantization_with_payload_in_ram_and_small_requests() {
    let v = ConfigValidator::new();
    let r = v
        .validate_yaml(
            "storage:\n  on_disk_payload: false\n  quantization:\n    scalar: {}\nservice:\n  max_request_size_mb: 4\n",
        )
        .unwrap();
    assert!(r.valid);
    let fields: Vec<&str> = r.warnings.iter().map(|w| w.field.as_str()).collect();
    assert_eq!(fields, vec!["storage.on_disk_payload", "service.max_request_size_mb"]);
    assert_eq!(r.warnings[1].message, "Max request size (4 MB) is low");
}

#[test]
fn non_integer_values_are_ignored() {
    let v = ConfigValidator::new();
    let r = v
        .validate_yaml("storage:\n  replication_factor: \"0\"\n  write_consistency_factor: -1\n")
        .unwrap();
    assert!(r.valid);
    assert!(r.warnings.is_empty());
}

#[test]
fn invalid_yaml_is_an_error() {
    let v = ConfigValidator::new();
    match v.validate_yaml("storage: [unclosed") {
        Err(ConfigError::InvalidYaml(_)) => {}
        Ok(_) => panic!("expected a parse error"),
    }
}

#[test]
fn empty_document_is_valid() {
    let v = ConfigValidator::new();
    let r = v.validate_yaml("").unwrap();
    assert!(r.valid);
    assert!(r.errors.is_empty() && r.warnings.is_empty());
}

#[test]
fn validate_config_on_a_built_tree() {
    let storage = YamlValue::Mapping(vec![(
        YamlValue::String("replication_factor".to_string()),
        YamlValue::Tagged("!int".to_string(), Box::new(YamlValue::Number(YamlNumber::PosInt(1)))),
    )]);
    let config = YamlValue::Mapping(vec![(YamlValue::String("storage".to_string()), storage)]);
    let r = ConfigValidator::new().validate_config(&config);
    assert!(r.valid);
    assert_eq!(r.warnings.len(), 1);
    assert_eq!(r.warnings[0].message, "Replication factor is 1, no redundancy");
}

#[test]
fn yaml_lookups() {
    let v = YamlValue::Mapping(vec![
        (YamlValue::Number(YamlNumber::PosInt(1)), YamlValue::Bool(true)),
        (YamlValue::String("a".to_string()), YamlValue::Bool(false)),
    ]);
    assert!(v.get("1").is_none());
    assert_eq!(v.get("a").and_then(|x| x.as_bool()), Some(false));
    assert_eq!(YamlValue::Number(YamlNumber::NegInt(-3)).as_u64(), None);
    assert_eq!(YamlValue::Number(YamlNumber::PosInt(3)).as_u64(), Some(3));
    assert!(YamlValue::Null.get("a").is_none());
}

#[test]
fn service_port_conflict_is_an_error() {
    let validator = ConfigValidator::new();
    let yaml = "service:\n  grpc_port: 6333\n  http_port: 6333\n";
    let result = validator.validate_yaml(yaml).unwrap();
    assert!(!result.valid);
    assert_eq!(result.errors.len(), 1);
    assert_eq!(result.errors[0].field, "service.grpc_port");
    assert_eq!(result.errors[0].message, "gRPC port (6333) conflicts with HTTP port");
}

#[test]
fn distinct_service_ports_are_valid() {
    let validator = ConfigValidator::new();
    let yaml = "service:\n  grpc_port: 6334\n  http_port: 6333\n";
    let result = validator.validate_yaml(yaml).unwrap();
    assert!(result.valid);
    assert!(result.errors.is_empty());
    assert!(result.warnings.is_empty());
}
