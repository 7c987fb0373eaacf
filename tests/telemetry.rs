use praborrow::{TelemetryConfig, TelemetryTransport};

#[test]
fn builder_defaults() {
    let config = TelemetryConfig::builder().build();
    assert_eq!(config.service_name(), "praborrow-unknown");
    assert_eq!(config.endpoint(), None);
    assert_eq!(config.log_level(), "info");
    assert_eq!(config.transport(), TelemetryTransport::Grpc);
}

#[test]
fn builder_keeps_what_was_set() {
    let config = TelemetryConfig::builder()
        .service_name("bank")
        .endpoint("http://127.0.0.1:4317")
        .log_level("debug")
        .transport(TelemetryTransport::Http)
        .build();
    assert_eq!(config.service_name(), "bank");
    assert_eq!(config.endpoint(), Some("http://127.0.0.1:4317"));
    assert_eq!(config.log_level(), "debug");
    assert_eq!(config.transport(), TelemetryTransport::Http);
}

#[test]
fn later_setting_wins() {
    let config = TelemetryConfig::builder().service_name("a").service_name("b").build();
    assert_eq!(config.service_name(), "b");
}
