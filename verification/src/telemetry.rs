//! Configuration of distributed tracing and the choice of trace exporter it
//! leads to.
use vstd::prelude::*;

verus! {

/// Where traces are exported.
#[derive(Clone, Copy, Debug, PartialEq, Eq, Structural)]
pub enum ExporterType {
    /// A Jaeger agent.
    Jaeger,
    /// An OTLP collector (such as Grafana Tempo).
    Otlp,
    /// The console, for debugging.
    Console,
}

impl Default for ExporterType {
    fn default() -> (t: Self)
        ensures
            t == ExporterType::Console,
    {
        ExporterType::Console
    }
}

/// Configuration of the trace exporter.
#[derive(Clone, Debug)]
pub struct ExporterConfig {
    /// Exporter type: jaeger, otlp or console.
    pub exporter_type: ExporterType,
    /// Endpoint of the exporter.
    pub endpoint: Option<String>,
}

impl Default for ExporterConfig {
    fn default() -> (c: Self)
        ensures
            c.exporter_type == ExporterType::Console,
            c.endpoint is None,
    {
        ExporterConfig { exporter_type: ExporterType::Console, endpoint: None }
    }
}

/// Configuration of distributed tracing.
#[derive(Clone, Debug)]
pub struct OpenTelemetryConfig {
    /// Whether tracing is on.
    pub enabled: bool,
    /// Service name to use in traces.
    pub service_name: Option<String>,
    /// Exporter configuration.
    pub exporter: ExporterConfig,
}

impl Default for OpenTelemetryConfig {
    fn default() -> (c: Self)
        ensures
            !c.enabled,
            c.service_name is None,
            c.exporter.exporter_type == ExporterType::Console,
            c.exporter.endpoint is None,
    {
        OpenTelemetryConfig {
            enabled: false,
            service_name: None,
            exporter: ExporterConfig::default(),
        }
    }
}

/// What initializing the tracer amounts to.
#[derive(Debug)]
pub enum TracerSetup {
    /// Tracing is off: nothing is installed.
    Disabled,
    /// Install a Jaeger agent pipeline under the service name.
    Jaeger { service_name: String, endpoint: Option<String> },
    /// Install an OTLP pipeline under the service name, sending to the
    /// endpoint if one is given.
    Otlp { service_name: String, endpoint: Option<String> },
    /// Traces go to the console through the regular subscriber.
    Console,
}

/// The service name used when the configuration names none.
pub open spec fn default_service_name() -> Seq<char> {
    "qdrant"@
}

/// The service name that traces carry.
pub open spec fn effective_service_name(config: OpenTelemetryConfig) -> Seq<char> {
    match config.service_name {
        Some(name) => name@,
        None => default_service_name(),
    }
}

/// The text view of an optional endpoint.
pub open spec fn endpoint_text(e: Option<String>) -> Option<Seq<char>> {
    match e {
        Some(s) => Some(s@),
        None => None,
    }
}

impl OpenTelemetryConfig {
    /// The service name that traces carry: the configured one, or "qdrant".
    pub fn service_name_or_default(&self) -> (name: String)
        ensures
            name@ == effective_service_name(*self),
    {
        match &self.service_name {
            Some(name) => name.clone(),
            None => String::from_str("qdrant"),
        }
    }

    /// What initializing the tracer with this configuration does: nothing
    /// when tracing is off; otherwise the configured exporter, with the
    /// effective service name and the configured endpoint.
    pub fn tracer_setup(&self) -> (s: TracerSetup)
        ensures
            !self.enabled ==> s is Disabled,
            self.enabled && self.exporter.exporter_type == ExporterType::Console ==> s is Console,
            self.enabled && self.exporter.exporter_type == ExporterType::Jaeger ==> (
            s matches TracerSetup::Jaeger { service_name, endpoint } && service_name@
                == effective_service_name(*self) && endpoint_text(endpoint) == endpoint_text(
                self.exporter.endpoint,
            )),
            self.enabled && self.exporter.exporter_type == ExporterType::Otlp ==> (
            s matches TracerSetup::Otlp { service_name, endpoint } && service_name@
                == effective_service_name(*self) && endpoint_text(endpoint) == endpoint_text(
                self.exporter.endpoint,
            )),
    {
        if !self.enabled {
            return TracerSetup::Disabled;
        }
        let endpoint = match &self.exporter.endpoint {
            Some(e) => Some(e.clone()),
            None => None,
        };
        match self.exporter.exporter_type {
            ExporterType::Jaeger => TracerSetup::Jaeger {
                service_name: self.service_name_or_default(),
                endpoint,
            },
            ExporterType::Otlp => TracerSetup::Otlp {
                service_name: self.service_name_or_default(),
                endpoint,
            },
            ExporterType::Console => TracerSetup::Console,
        }
    }
}

} // verus!
