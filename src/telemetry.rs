use vstd::prelude::*;

verus! {

/// The protocol over which spans are exported.
#[derive(Debug, Clone, Copy, PartialEq, Eq, Structural)]
pub enum TelemetryTransport {
    Grpc,
    Http,
}

/// Settings of the telemetry subsystem.
#[derive(Debug)]
pub struct TelemetryConfig {
    service_name: String,
    otlp_endpoint: Option<String>,
    log_level: String,
    transport: TelemetryTransport,
}

/// The service name of a configuration built without one.
pub open spec fn default_service_name() -> Seq<char> {
    "praborrow-unknown"@
}

/// The log level of a configuration built without one.
pub open spec fn default_log_level() -> Seq<char> {
    "info"@
}

pub open spec fn option_view(o: Option<String>) -> Option<Seq<char>> {
    match o {
        Some(s) => Some(s@),
        None => None,
    }
}

impl View for TelemetryConfig {
    /// Service name, endpoint, log level, transport.
    type V = (Seq<char>, Option<Seq<char>>, Seq<char>, TelemetryTransport);

    closed spec fn view(&self) -> Self::V {
        (self.service_name@, option_view(self.otlp_endpoint), self.log_level@, self.transport)
    }
}

impl TelemetryConfig {
    /// A builder with nothing set.
    pub fn builder() -> (r: TelemetryConfigBuilder)
        ensures
            r@ == (None::<Seq<char>>, None::<Seq<char>>, None::<Seq<char>>, None::<TelemetryTransport>),
    {
        TelemetryConfigBuilder::default()
    }

    pub fn service_name(&self) -> (r: &str)
        ensures
            r@ == self@.0,
    {
        self.service_name.as_str()
    }

    pub fn endpoint(&self) -> (r: Option<&str>)
        ensures
            match r {
                Some(e) => self@.1 == Some(e@),
                None => self@.1 is None,
            },
    {
        match &self.otlp_endpoint {
            Some(e) => Some(e.as_str()),
            None => None,
        }
    }

    pub fn log_level(&self) -> (r: &str)
        ensures
            r@ == self@.2,
    {
        self.log_level.as_str()
    }

    pub fn transport(&self) -> (r: TelemetryTransport)
        ensures
            r == self@.3,
    {
        self.transport
    }
}

/// Builder of a `TelemetryConfig`.
pub struct TelemetryConfigBuilder {
    service_name: Option<String>,
    otlp_endpoint: Option<String>,
    log_level: Option<String>,
    transport: Option<TelemetryTransport>,
}

impl View for TelemetryConfigBuilder {
    /// What has been set: service name, endpoint, log level, transport.
    type V = (Option<Seq<char>>, Option<Seq<char>>, Option<Seq<char>>, Option<TelemetryTransport>);

    closed spec fn view(&self) -> Self::V {
        (
            option_view(self.service_name),
            option_view(self.otlp_endpoint),
            option_view(self.log_level),
            self.transport,
        )
    }
}

impl Default for TelemetryConfigBuilder {
    fn default() -> (r: TelemetryConfigBuilder)
        ensures
            r@ == (None::<Seq<char>>, None::<Seq<char>>, None::<Seq<char>>, None::<TelemetryTransport>),
    {
        TelemetryConfigBuilder { service_name: None, otlp_endpoint: None, log_level: None, transport: None }
    }
}

impl TelemetryConfigBuilder {
    /// Sets the service name.
    pub fn service_name(self, name: &str) -> (r: TelemetryConfigBuilder)
        ensures
            r@ == (Some(name@), self@.1, self@.2, self@.3),
    {
        TelemetryConfigBuilder { service_name: Some(name.to_owned()), ..self }
    }

    /// Sets the endpoint to which spans are exported.
    pub fn endpoint(self, endpoint: &str) -> (r: TelemetryConfigBuilder)
        ensures
            r@ == (self@.0, Some(endpoint@), self@.2, self@.3),
    {
        TelemetryConfigBuilder { otlp_endpoint: Some(endpoint.to_owned()), ..self }
    }

    /// Sets the log level.
    pub fn log_level(self, level: &str) -> (r: TelemetryConfigBuilder)
        ensures
            r@ == (self@.0, self@.1, Some(level@), self@.3),
    {
        TelemetryConfigBuilder { log_level: Some(level.to_owned()), ..self }
    }

    /// Sets the export protocol.
    pub fn transport(self, transport: TelemetryTransport) -> (r: TelemetryConfigBuilder)
        ensures
            r@ == (self@.0, self@.1, self@.2, Some(transport)),
    {
        TelemetryConfigBuilder { transport: Some(transport), ..self }
    }

    /// The configuration, with the service name `praborrow-unknown`, the log level `info` and
    /// the transport gRPC where they were not set.
    pub fn build(self) -> (r: TelemetryConfig)
        ensures
            r@.0 == match self@.0 {
                Some(n) => n,
                None => default_service_name(),
            },
            r@.1 == self@.1,
            r@.2 == match self@.2 {
                Some(l) => l,
                None => default_log_level(),
            },
            r@.3 == match self@.3 {
                Some(t) => t,
                None => TelemetryTransport::Grpc,
            },
    {
        let service_name = match self.service_name {
            Some(n) => n,
            None => "praborrow-unknown".to_owned(),
        };
        let log_level = match self.log_level {
            Some(l) => l,
            None => "info".to_owned(),
        };
        let transport = match self.transport {
            Some(t) => t,
            None => TelemetryTransport::Grpc,
        };
        TelemetryConfig { service_name, otlp_endpoint: self.otlp_endpoint, log_level, transport }
    }
}

} // verus!
