//! Validation of configuration documents for conflicts and best practices.
//!
//! The checks read three sections of the document: `storage`, `cluster` and
//! `service`. Each finding is an error (the configuration is invalid) or a
//! warning with a suggestion.
use crate::text::{decimal, push_decimal};
use crate::yaml::{get_bool, get_u64, parse_yaml, parsed_yaml, yaml_get, YamlValue};
use vstd::prelude::*;

verus! {

/// A problem that makes a configuration invalid.
#[derive(Debug)]
pub struct ValidationError {
    pub field: String,
    pub message: String,
}

/// A setting that works but is not recommended.
#[derive(Debug)]
pub struct ValidationWarning {
    pub field: String,
    pub message: String,
    pub suggestion: String,
}

/// Outcome of validating a configuration.
#[derive(Debug)]
pub struct ValidationResult {
    pub valid: bool,
    pub errors: Vec<ValidationError>,
    pub warnings: Vec<ValidationWarning>,
}

/// Why a configuration could not be validated.
#[derive(Debug)]
pub enum ConfigError {
    /// The text is not a YAML document.
    InvalidYaml(serde_yaml::Error),
}

/// Field and message of an error.
pub type ErrorText = (Seq<char>, Seq<char>);

/// Field, message and suggestion of a warning.
pub type WarningText = (Seq<char>, Seq<char>, Seq<char>);

/// The texts of a sequence of errors.
pub open spec fn error_texts(v: Seq<ValidationError>) -> Seq<ErrorText> {
    v.map_values(|e: ValidationError| (e.field@, e.message@))
}

/// The texts of a sequence of warnings.
pub open spec fn warning_texts(v: Seq<ValidationWarning>) -> Seq<WarningText> {
    v.map_values(|w: ValidationWarning| (w.field@, w.message@, w.suggestion@))
}

/// Message for a write consistency factor above the replication factor.
pub open spec fn consistency_message(wcf: u64, rf: u64) -> Seq<char> {
    "Write consistency factor ("@ + decimal(wcf as nat) + ") cannot exceed replication factor ("@
        + decimal(rf as nat) + ")"@
}

/// Message for a low consensus tick period.
pub open spec fn tick_message(tick_ms: u64) -> Seq<char> {
    "Tick period ("@ + decimal(tick_ms as nat) + " ms) is very low"@
}

/// Message for a low request size limit.
pub open spec fn request_size_message(size_mb: u64) -> Seq<char> {
    "Max request size ("@ + decimal(size_mb as nat) + " MB) is low"@
}

/// Errors found in the `storage` section: a replication factor of 0, and a
/// write consistency factor above the replication factor.
pub open spec fn storage_errors(storage: YamlValue) -> Seq<ErrorText> {
    let rf = get_u64(storage, "replication_factor"@);
    let wcf = get_u64(storage, "write_consistency_factor"@);
    (if rf == Some(0u64) {
        seq![("storage.replication_factor"@, "Replication factor cannot be 0"@)]
    } else {
        Seq::empty()
    }) + match (wcf, rf) {
        (Some(w), Some(r)) => if w > r {
            seq![("storage.write_consistency_factor"@, consistency_message(w, r))]
        } else {
            Seq::empty()
        },
        _ => Seq::empty(),
    }
}

/// Warnings for the `storage` section: a replication factor of 1, and
/// quantization with payloads kept in memory.
pub open spec fn storage_warnings(storage: YamlValue) -> Seq<WarningText> {
    (if get_u64(storage, "replication_factor"@) == Some(1u64) {
        seq![
            (
                "storage.replication_factor"@,
                "Replication factor is 1, no redundancy"@,
                "Set to 2 or 3 for production"@,
            ),
        ]
    } else {
        Seq::empty()
    }) + if get_bool(storage, "on_disk_payload"@) == Some(false) && yaml_get(
        storage,
        "quantization"@,
    ) is Some {
        seq![
            (
                "storage.on_disk_payload"@,
                "Quantization enabled but payloads in RAM"@,
                "Enable on_disk_payload to maximize memory savings"@,
            ),
        ]
    } else {
        Seq::empty()
    }
}

/// The `port` under `p2p`, if there is one.
pub open spec fn p2p_port(cluster: YamlValue) -> Option<YamlValue> {
    match yaml_get(cluster, "p2p"@) {
        Some(p) => yaml_get(p, "port"@),
        None => None,
    }
}

/// Errors found in the `cluster` section: an enabled cluster without a P2P
/// port.
pub open spec fn cluster_errors(cluster: YamlValue) -> Seq<ErrorText> {
    if get_bool(cluster, "enabled"@) == Some(true) && p2p_port(cluster) is None {
        seq![("cluster.p2p.port"@, "P2P port must be set when cluster is enabled"@)]
    } else {
        Seq::empty()
    }
}

/// Warnings for the `cluster` section: an enabled cluster whose consensus
/// tick period is under 50ms.
pub open spec fn cluster_warnings(cluster: YamlValue) -> Seq<WarningText> {
    if get_bool(cluster, "enabled"@) == Some(true) {
        match yaml_get(cluster, "consensus"@) {
            Some(consensus) => match get_u64(consensus, "tick_period_ms"@) {
                Some(t) => if t < 50 {
                    seq![
                        (
                            "cluster.consensus.tick_period_ms"@,
                            tick_message(t),
                            "Use at least 100ms for stability"@,
                        ),
                    ]
                } else {
                    Seq::empty()
                },
                None => Seq::empty(),
            },
            None => Seq::empty(),
        }
    } else {
        Seq::empty()
    }
}

/// Message for a gRPC port equal to the HTTP port.
pub open spec fn port_conflict_message(port: u64) -> Seq<char> {
    "gRPC port ("@ + decimal(port as nat) + ") conflicts with HTTP port"@
}

/// Errors found in the `service` section: a gRPC port equal to the HTTP
/// port.
pub open spec fn service_errors(service: YamlValue) -> Seq<ErrorText> {
    match (get_u64(service, "grpc_port"@), get_u64(service, "http_port"@)) {
        (Some(g), Some(h)) => if g == h {
            seq![("service.grpc_port"@, port_conflict_message(g))]
        } else {
            Seq::empty()
        },
        _ => Seq::empty(),
    }
}

/// Warnings for the `service` section: a request size limit under 10MB.
pub open spec fn service_warnings(service: YamlValue) -> Seq<WarningText> {
    match get_u64(service, "max_request_size_mb"@) {
        Some(m) => if m < 10 {
            seq![
                (
                    "service.max_request_size_mb"@,
                    request_size_message(m),
                    "Consider increasing to 32MB or more for batch operations"@,
                ),
            ]
        } else {
            Seq::empty()
        },
        None => Seq::empty(),
    }
}

/// All errors of a configuration: those of `storage`, `cluster` and
/// `service`, in this order, for the sections that are present.
pub open spec fn config_errors(config: YamlValue) -> Seq<ErrorText> {
    (match yaml_get(config, "storage"@) {
        Some(s) => storage_errors(s),
        None => Seq::empty(),
    }) + (match yaml_get(config, "cluster"@) {
        Some(c) => cluster_errors(c),
        None => Seq::empty(),
    }) + match yaml_get(config, "service"@) {
        Some(s) => service_errors(s),
        None => Seq::empty(),
    }
}

/// All warnings of a configuration: those of `storage`, `cluster` and
/// `service`, in this order, for the sections that are present.
pub open spec fn config_warnings(config: YamlValue) -> Seq<WarningText> {
    (match yaml_get(config, "storage"@) {
        Some(s) => storage_warnings(s),
        None => Seq::empty(),
    }) + (match yaml_get(config, "cluster"@) {
        Some(c) => cluster_warnings(c),
        None => Seq::empty(),
    }) + match yaml_get(config, "service"@) {
        Some(s) => service_warnings(s),
        None => Seq::empty(),
    }
}

/// The settings that the checks treat as conflicts always make a
/// configuration invalid: a replication factor of 0, a write consistency
/// factor above the replication factor, an enabled cluster without a P2P
/// port, and a gRPC port equal to the HTTP port. Without these sections
/// there is nothing to find: warnings alone never make a configuration
/// invalid.
pub proof fn lemma_conflicts_invalidate(config: YamlValue)
    ensures
        (yaml_get(config, "storage"@) matches Some(st) && get_u64(st, "replication_factor"@) == Some(
            0u64,
        )) ==> config_errors(config).len() > 0,
        (yaml_get(config, "storage"@) matches Some(st) && get_u64(st, "write_consistency_factor"@) matches Some(
            w,
        ) && get_u64(st, "replication_factor"@) matches Some(r) && w > r) ==> config_errors(config).len() > 0,
        (yaml_get(config, "cluster"@) matches Some(c) && get_bool(c, "enabled"@) == Some(true) && p2p_port(c) is None)
            ==> config_errors(config).len() > 0,
        (yaml_get(config, "service"@) matches Some(sv) && get_u64(sv, "grpc_port"@) matches Some(g)
            && get_u64(sv, "http_port"@) == Some(g)) ==> config_errors(config).len() > 0,
        (yaml_get(config, "storage"@) is None && yaml_get(config, "cluster"@) is None && yaml_get(
            config,
            "service"@,
        ) is None) ==> config_errors(config).len() == 0,
{
}

/// The checks find no false conflicts: a configuration in which none of
/// the four conflicts holds (a replication factor of 0, a write consistency
/// factor strictly above the replication factor, an enabled cluster without
/// a P2P port, a gRPC port equal to the HTTP port) has no error and is
/// valid; in particular a write consistency factor equal to the
/// replication factor is accepted.
pub proof fn lemma_no_false_conflicts(config: YamlValue)
    requires
        yaml_get(config, "storage"@) matches Some(st) ==> get_u64(st, "replication_factor"@) != Some(
            0u64,
        ),
        yaml_get(config, "storage"@) matches Some(st) ==> (get_u64(st, "write_consistency_factor"@) matches Some(
            w,
        ) ==> (get_u64(st, "replication_factor"@) matches Some(r) ==> w <= r)),
        yaml_get(config, "cluster"@) matches Some(c) ==> (get_bool(c, "enabled"@) == Some(true)
            ==> p2p_port(c) is Some),
        yaml_get(config, "service"@) matches Some(sv) ==> (get_u64(sv, "grpc_port"@) matches Some(g)
            ==> get_u64(sv, "http_port"@) != Some(g)),
    ensures
        config_errors(config).len() == 0,
{
}

/// The settings that the checks advise against always draw their warning:
/// a replication factor of 1, quantization with payloads kept in memory, an
/// enabled cluster whose consensus tick period is under 50ms, and a request
/// size limit under 10MB.
pub proof fn lemma_risky_settings_warn(config: YamlValue)
    ensures
        (yaml_get(config, "storage"@) matches Some(st) && get_u64(st, "replication_factor"@) == Some(
            1u64,
        )) ==> config_warnings(config).contains(
            (
                "storage.replication_factor"@,
                "Replication factor is 1, no redundancy"@,
                "Set to 2 or 3 for production"@,
            ),
        ),
        (yaml_get(config, "storage"@) matches Some(st) && get_bool(st, "on_disk_payload"@) == Some(
            false,
        ) && yaml_get(st, "quantization"@) is Some) ==> config_warnings(config).contains(
            (
                "storage.on_disk_payload"@,
                "Quantization enabled but payloads in RAM"@,
                "Enable on_disk_payload to maximize memory savings"@,
            ),
        ),
        forall|t: u64|
            (yaml_get(config, "cluster"@) matches Some(c) && get_bool(c, "enabled"@) == Some(true) && (
            yaml_get(c, "consensus"@) matches Some(cs) && get_u64(cs, "tick_period_ms"@) == Some(t)))
                && t < 50 ==> config_warnings(config).contains(
                (
                    "cluster.consensus.tick_period_ms"@,
                    #[trigger] tick_message(t),
                    "Use at least 100ms for stability"@,
                ),
            ),
        forall|m: u64|
            (yaml_get(config, "service"@) matches Some(sv) && get_u64(sv, "max_request_size_mb"@)
                == Some(m)) && m < 10 ==> config_warnings(config).contains(
                (
                    "service.max_request_size_mb"@,
                    #[trigger] request_size_message(m),
                    "Consider increasing to 32MB or more for batch operations"@,
                ),
            ),
{
    let s_w = match yaml_get(config, "storage"@) {
        Some(s) => storage_warnings(s),
        None => Seq::<WarningText>::empty(),
    };
    let c_w = match yaml_get(config, "cluster"@) {
        Some(c) => cluster_warnings(c),
        None => Seq::<WarningText>::empty(),
    };
    let v_w = match yaml_get(config, "service"@) {
        Some(s) => service_warnings(s),
        None => Seq::<WarningText>::empty(),
    };
    let all = config_warnings(config);
    assert(all == s_w + c_w + v_w);
    if let Some(st) = yaml_get(config, "storage"@) {
        let first = if get_u64(st, "replication_factor"@) == Some(1u64) {
            seq![
                (
                    "storage.replication_factor"@,
                    "Replication factor is 1, no redundancy"@,
                    "Set to 2 or 3 for production"@,
                ),
            ]
        } else {
            Seq::<WarningText>::empty()
        };
        if get_u64(st, "replication_factor"@) == Some(1u64) {
            assert(all[0] == s_w[0]);
        }
        if get_bool(st, "on_disk_payload"@) == Some(false) && yaml_get(st, "quantization"@) is Some {
            let k = first.len() as int;
            assert(s_w[k] == (
                "storage.on_disk_payload"@,
                "Quantization enabled but payloads in RAM"@,
                "Enable on_disk_payload to maximize memory savings"@,
            ));
            assert(all[k] == s_w[k]);
        }
    }
    if let Some(c) = yaml_get(config, "cluster"@) {
        if c_w.len() > 0 {
            let k = s_w.len() as int;
            assert(all[k] == c_w[0]);
        }
    }
    if let Some(sv) = yaml_get(config, "service"@) {
        if v_w.len() > 0 {
            let k = (s_w.len() + c_w.len()) as int;
            assert(all[k] == v_w[0]);
        }
    }
}

/// Appends an error.
fn push_error(errors: &mut Vec<ValidationError>, field: &str, message: String)
    ensures
        error_texts(final(errors)@) == error_texts(old(errors)@).push((field@, message@)),
{
    errors.push(ValidationError { field: String::from_str(field), message });
    proof {
        assert(error_texts(errors@) =~= error_texts(old(errors)@).push((field@, message@)));
    }
}

/// Appends a warning.
fn push_warning(warnings: &mut Vec<ValidationWarning>, field: &str, message: String, suggestion: &str)
    ensures
        warning_texts(final(warnings)@) == warning_texts(old(warnings)@).push(
            (field@, message@, suggestion@),
        ),
{
    warnings.push(
        ValidationWarning {
            field: String::from_str(field),
            message,
            suggestion: String::from_str(suggestion),
        },
    );
    proof {
        assert(warning_texts(warnings@) =~= warning_texts(old(warnings)@).push(
            (field@, message@, suggestion@),
        ));
    }
}

/// The non-negative integer under `key`.
fn get_u64_field(v: &YamlValue, key: &str) -> (r: Option<u64>)
    ensures
        r == get_u64(*v, key@),
{
    match v.get(key) {
        Some(x) => x.as_u64(),
        None => None,
    }
}

/// The boolean under `key`.
fn get_bool_field(v: &YamlValue, key: &str) -> (r: Option<bool>)
    ensures
        r == get_bool(*v, key@),
{
    match v.get(key) {
        Some(x) => x.as_bool(),
        None => None,
    }
}

/// Checker of configuration documents.
pub struct ConfigValidator {}

impl ConfigValidator {
    pub fn new() -> Self {
        ConfigValidator {  }
    }

    /// Validates a YAML configuration text: an error exactly when the text
    /// does not parse; otherwise the findings of [`Self::validate_config`]
    /// on the parsed document.
    pub fn validate_yaml(&self, yaml: &str) -> (r: Result<ValidationResult, ConfigError>)
        ensures
            match r {
                Ok(res) => parsed_yaml(yaml@) is Some && error_texts(res.errors@)
                    == config_errors(parsed_yaml(yaml@).unwrap()) && warning_texts(res.warnings@)
                    == config_warnings(parsed_yaml(yaml@).unwrap()) && res.valid == (config_errors(
                    parsed_yaml(yaml@).unwrap(),
                ).len() == 0),
                Err(_) => parsed_yaml(yaml@) is None,
            },
    {
        match parse_yaml(yaml) {
            Ok(config) => Ok(self.validate_config(&config)),
            Err(e) => Err(ConfigError::InvalidYaml(e)),
        }
    }

    /// Validates a parsed configuration document: all errors and warnings
    /// of its sections; valid exactly when there is no error.
    pub fn validate_config(&self, config: &YamlValue) -> (r: ValidationResult)
        ensures
            error_texts(r.errors@) == config_errors(*config),
            warning_texts(r.warnings@) == config_warnings(*config),
            r.valid == (config_errors(*config).len() == 0),
    {
        let mut errors: Vec<ValidationError> = Vec::new();
        let mut warnings: Vec<ValidationWarning> = Vec::new();
        assert(error_texts(errors@) =~= Seq::empty());
        assert(warning_texts(warnings@) =~= Seq::empty());
        match config.get("storage") {
            Some(storage) => self.validate_storage(storage, &mut errors, &mut warnings),
            None => {},
        }
        match config.get("cluster") {
            Some(cluster) => self.validate_cluster(cluster, &mut errors, &mut warnings),
            None => {},
        }
        match config.get("service") {
            Some(service) => self.validate_service(service, &mut errors, &mut warnings),
            None => {},
        }
        proof {
            assert(error_texts(errors@) =~= config_errors(*config));
            assert(warning_texts(warnings@) =~= config_warnings(*config));
        }
        let valid = errors.len() == 0;
        ValidationResult { valid, errors, warnings }
    }

    fn validate_storage(
        &self,
        storage: &YamlValue,
        errors: &mut Vec<ValidationError>,
        warnings: &mut Vec<ValidationWarning>,
    )
        ensures
            error_texts(final(errors)@) == error_texts(old(errors)@) + storage_errors(*storage),
            warning_texts(final(warnings)@) == warning_texts(old(warnings)@) + storage_warnings(
                *storage,
            ),
    {
        let ghost e0 = error_texts(errors@);
        let ghost w0 = warning_texts(warnings@);
        let rf = get_u64_field(storage, "replication_factor");
        match rf {
            Some(r) => {
                if r == 0 {
                    push_error(
                        errors,
                        "storage.replication_factor",
                        String::from_str("Replication factor cannot be 0"),
                    );
                } else if r == 1 {
                    push_warning(
                        warnings,
                        "storage.replication_factor",
                        String::from_str("Replication factor is 1, no redundancy"),
                        "Set to 2 or 3 for production",
                    );
                }
            },
            None => {},
        }
        match get_u64_field(storage, "write_consistency_factor") {
            Some(w) => match rf {
                Some(r) => {
                    if w > r {
                        let mut message = String::from_str("Write consistency factor (");
                        push_decimal(&mut message, w);
                        message.append(") cannot exceed replication factor (");
                        push_decimal(&mut message, r);
                        message.append(")");
                        assert(message@ =~= consistency_message(w, r));
                        push_error(errors, "storage.write_consistency_factor", message);
                    }
                },
                None => {},
            },
            None => {},
        }
        match get_bool_field(storage, "on_disk_payload") {
            Some(on_disk) => {
                if !on_disk {
                    if storage.get("quantization").is_some() {
                        push_warning(
                            warnings,
                            "storage.on_disk_payload",
                            String::from_str("Quantization enabled but payloads in RAM"),
                            "Enable on_disk_payload to maximize memory savings",
                        );
                    }
                }
            },
            None => {},
        }
        proof {
            assert(error_texts(errors@) =~= e0 + storage_errors(*storage));
            assert(warning_texts(warnings@) =~= w0 + storage_warnings(*storage));
        }
    }

    fn validate_cluster(
        &self,
        cluster: &YamlValue,
        errors: &mut Vec<ValidationError>,
        warnings: &mut Vec<ValidationWarning>,
    )
        ensures
            error_texts(final(errors)@) == error_texts(old(errors)@) + cluster_errors(*cluster),
            warning_texts(final(warnings)@) == warning_texts(old(warnings)@) + cluster_warnings(
                *cluster,
            ),
    {
        let ghost e0 = error_texts(errors@);
        let ghost w0 = warning_texts(warnings@);
        match get_bool_field(cluster, "enabled") {
            Some(enabled) => {
                if enabled {
                    let port = match cluster.get("p2p") {
                        Some(p) => p.get("port"),
                        None => None,
                    };
                    if port.is_none() {
                        push_error(
                            errors,
                            "cluster.p2p.port",
                            String::from_str("P2P port must be set when cluster is enabled"),
                        );
                    }
                    match cluster.get("consensus") {
                        Some(consensus) => match get_u64_field(consensus, "tick_period_ms") {
                            Some(tick_ms) => {
                                if tick_ms < 50 {
                                    let mut message = String::from_str("Tick period (");
                                    push_decimal(&mut message, tick_ms);
                                    message.append(" ms) is very low");
                                    assert(message@ =~= tick_message(tick_ms));
                                    push_warning(
                                        warnings,
                                        "cluster.consensus.tick_period_ms",
                                        message,
                                        "Use at least 100ms for stability",
                                    );
                                }
                            },
                            None => {},
                        },
                        None => {},
                    }
                }
            },
            None => {},
        }
        proof {
            assert(error_texts(errors@) =~= e0 + cluster_errors(*cluster));
            assert(warning_texts(warnings@) =~= w0 + cluster_warnings(*cluster));
        }
    }

    fn validate_service(
        &self,
        service: &YamlValue,
        errors: &mut Vec<ValidationError>,
        warnings: &mut Vec<ValidationWarning>,
    )
        ensures
            error_texts(final(errors)@) == error_texts(old(errors)@) + service_errors(*service),
            warning_texts(final(warnings)@) == warning_texts(old(warnings)@) + service_warnings(
                *service,
            ),
    {
        let ghost e0 = error_texts(errors@);
        let ghost w0 = warning_texts(warnings@);
        match get_u64_field(service, "grpc_port") {
            Some(grpc) => match get_u64_field(service, "http_port") {
                Some(http) => {
                    if grpc == http {
                        let mut message = String::from_str("gRPC port (");
                        push_decimal(&mut message, grpc);
                        message.append(") conflicts with HTTP port");
                        assert(message@ =~= port_conflict_message(grpc));
                        push_error(errors, "service.grpc_port", message);
                    }
                },
                None => {},
            },
            None => {},
        }
        match get_u64_field(service, "max_request_size_mb") {
            Some(max_size) => {
                if max_size < 10 {
                    let mut message = String::from_str("Max request size (");
                    push_decimal(&mut message, max_size);
                    message.append(" MB) is low");
                    assert(message@ =~= request_size_message(max_size));
                    push_warning(
                        warnings,
                        "service.max_request_size_mb",
                        message,
                        "Consider increasing to 32MB or more for batch operations",
                    );
                }
            },
            None => {},
        }
        proof {
            assert(error_texts(errors@) =~= e0 + service_errors(*service));
            assert(warning_texts(warnings@) =~= w0 + service_warnings(*service));
        }
    }
}

} // verus!
