use aperture::gateway::fields::{
    initial_fields, integer_route, is_consumed, text_route, tracing_to_db_level, IntegerRoute,
    Level, TextRoute, TraceLevel,
};
use aperture::gateway::logging::{
    dropped_after_flush, dropped_after_send, flush_plan, event_origin, new_span_skipped, within_flush, writer_step, WriterAction, WriterEvent,
    FLUSH_BATCH, FLUSH_SPAN_NAME,
};
use aperture::gateway::pki::{
    compute_sans, needs_rotation, rotation_due, IpAddress, SubjectAltName, CA_CERT_KEY,
    CA_KEY_KEY, CA_VALIDITY_DAYS, LEAF_HALF_LIFE_MS, LEAF_VALIDITY_DAYS, SERVER_CERT_KEY,
    SERVER_KEY_KEY,
};
use aperture::gateway::serve::{
    check_listeners, hostname_source, os_feed_step, service_specs, shutdown_result, HostnameSource,
    ListenAddr, ListenerError, OsAction, ServiceSpec, SettingsWake, ShutdownOutcome,
};
use aperture::gateway::redirect::{redirect_target, strip_port, REDIRECT_STATUS};

#[test]
fn strip_port_removes_the_last_colon_suffix() {
    assert_eq!(strip_port("example.com:8080"), "example.com");
    assert_eq!(strip_port("example.com"), "example.com");
    assert_eq!(strip_port("[::1]:8443"), "[::1]");
    assert_eq!(strip_port(""), "");
    assert_eq!(strip_port(":80"), "");
    assert_eq!(strip_port("[::1]"), "[::1]");
    assert_eq!(strip_port("[fe80::1%eth0]"), "[fe80::1%eth0]");
    assert_eq!(strip_port("[2001:db8::2]:443"), "[2001:db8::2]");
    assert_eq!(strip_port("[::1"), "[::1");
}

#[test]
fn redirect_target_omits_default_port() {
    assert_eq!(redirect_target(443, Some("h:80"), Some("/x")), "https://h/x");
    assert_eq!(redirect_target(443, None, None), "https://localhost/");
    assert_eq!(
        redirect_target(8443, Some("box.local:8080"), Some("/a?b=c")),
        "https://box.local:8443/a?b=c"
    );
    assert_eq!(redirect_target(8443, None, Some("/")), "https://localhost:8443/");
    assert_eq!(redirect_target(0, Some("h"), None), "https://h:0/");
    assert_eq!(REDIRECT_STATUS, 308);
    assert_eq!(redirect_target(443, Some("[::1]"), None), "https://[::1]/");
    assert_eq!(redirect_target(8443, Some("[::1]:8080"), Some("/a")), "https://[::1]:8443/a");
}

#[test]
fn consumed_fields() {
    for name in ["message", "log.target", "log.file", "log.module_path", "log.line"] {
        assert!(is_consumed(name), "{name}");
    }
    assert!(!is_consumed("user_id"));
    assert!(!is_consumed("log"));
}

#[test]
fn text_fields_are_routed_by_name() {
    assert_eq!(text_route("message"), TextRoute::Message);
    assert_eq!(text_route("log.target"), TextRoute::LogTarget);
    assert_eq!(text_route("log.file"), TextRoute::LogFile);
    assert_eq!(text_route("log.module_path"), TextRoute::Ignored);
    assert_eq!(text_route("status"), TextRoute::Field);
    assert_eq!(text_route("log.line"), TextRoute::Ignored);
}

#[test]
fn integer_fields_are_routed_by_name_and_range() {
    assert_eq!(integer_route("log.line", 42), IntegerRoute::LogLine(42));
    assert_eq!(
        integer_route("log.line", 4_294_967_295),
        IntegerRoute::LogLine(4_294_967_295)
    );
    assert_eq!(integer_route("log.line", 4_294_967_296), IntegerRoute::Ignored);
    assert_eq!(integer_route("log.line", -1), IntegerRoute::Ignored);
    assert_eq!(integer_route("message", 5), IntegerRoute::Ignored);
    assert_eq!(integer_route("log.module_path", 5), IntegerRoute::Ignored);
    assert_eq!(integer_route("count", 42), IntegerRoute::Field);
}

#[test]
fn initial_fields_skip_consumed_names() {
    let names = vec!["message", "user_id", "log.line", "status"];
    assert_eq!(initial_fields(&names), vec!["user_id", "status"]);
    assert_eq!(initial_fields(&Vec::new()), Vec::<&str>::new());
}

#[test]
fn levels_map_by_name() {
    assert_eq!(tracing_to_db_level(TraceLevel::Trace), Level::Trace);
    assert_eq!(tracing_to_db_level(TraceLevel::Debug), Level::Debug);
    assert_eq!(tracing_to_db_level(TraceLevel::Info), Level::Info);
    assert_eq!(tracing_to_db_level(TraceLevel::Warn), Level::Warn);
    assert_eq!(tracing_to_db_level(TraceLevel::Error), Level::Error);
}

fn localhost_defaults() -> Vec<SubjectAltName> {
    vec![
        SubjectAltName::DnsName("localhost".to_string()),
        SubjectAltName::IpAddress(IpAddress::V4(127, 0, 0, 1)),
        SubjectAltName::IpAddress(IpAddress::V6(0, 0, 0, 0, 0, 0, 0, 1)),
    ]
}

#[test]
fn sans_for_loopback_and_unspecified_binds() {
    let defaults = localhost_defaults();
    assert_eq!(compute_sans(IpAddress::V4(127, 0, 0, 1)), defaults);
    assert_eq!(compute_sans(IpAddress::V6(0, 0, 0, 0, 0, 0, 0, 1)), defaults);
    assert_eq!(compute_sans(IpAddress::V4(0, 0, 0, 0)), defaults);
    assert_eq!(compute_sans(IpAddress::V6(0, 0, 0, 0, 0, 0, 0, 0)), defaults);
}

#[test]
fn sans_add_a_specific_bind_address() {
    let mut expected = localhost_defaults();
    expected.push(SubjectAltName::IpAddress(IpAddress::V4(192, 168, 1, 10)));
    assert_eq!(compute_sans(IpAddress::V4(192, 168, 1, 10)), expected);
}

#[test]
fn rotation_is_due_at_half_life() {
    assert_eq!(LEAF_HALF_LIFE_MS, 604_800_000);
    assert_eq!(
        LEAF_HALF_LIFE_MS,
        (LEAF_VALIDITY_DAYS as i64) * 24 * 60 * 60 * 1000 / 2
    );
    assert_eq!(CA_VALIDITY_DAYS, 1825);
    assert!(rotation_due(604_800_000, 0));
    assert!(!rotation_due(604_799_999, 0));
    assert!(!rotation_due(0, 1_000));
    assert!(rotation_due(1_700_604_800_000, 1_700_000_000_000));
}

#[test]
fn rotation_needs_a_stored_certificate() {
    assert!(!needs_rotation(2_000_000_000_000, None));
    assert!(needs_rotation(604_800_000, Some(0)));
    assert!(!needs_rotation(604_799_999, Some(0)));
    assert_eq!(CA_CERT_KEY, "tls/ca-cert");
    assert_eq!(CA_KEY_KEY, "tls/ca-key");
    assert_eq!(SERVER_CERT_KEY, "tls/server-cert");
    assert_eq!(SERVER_KEY_KEY, "tls/server-key");
}

fn v4(a: u8, b: u8, c: u8, d: u8, port: u16) -> ListenAddr {
    ListenAddr { ip: IpAddress::V4(a, b, c, d), port, flowinfo: 0, scope_id: 0 }
}

#[test]
fn serve_rejects_when_no_listeners_configured() {
    let err = check_listeners(None, None).unwrap_err();
    assert_eq!(err, ListenerError::NoListeners);
    assert!(err.message("").contains("at least one"));
    assert_eq!(
        err.message(""),
        "at least one of --https-addr or --http-addr must be set (pass an empty string to disable a single listener)"
    );
}

#[test]
fn listeners_must_differ() {
    let a = v4(127, 0, 0, 1, 8080);
    assert_eq!(check_listeners(Some(a), Some(a)), Err(ListenerError::SameAddress(a)));
    assert_eq!(
        ListenerError::SameAddress(a).message("127.0.0.1:8080"),
        "--https-addr and --http-addr must differ (both were 127.0.0.1:8080)"
    );
    assert_eq!(check_listeners(Some(a), Some(v4(127, 0, 0, 1, 8443))), Ok(()));
    assert_eq!(check_listeners(Some(a), None), Ok(()));
    assert_eq!(check_listeners(None, Some(a)), Ok(()));
    let scoped = ListenAddr {
        ip: IpAddress::V6(0xfe80, 0, 0, 0, 0, 0, 0, 1),
        port: 80,
        flowinfo: 0,
        scope_id: 2,
    };
    let unscoped = ListenAddr { scope_id: 0, ..scoped };
    assert_eq!(check_listeners(Some(scoped), Some(unscoped)), Ok(()));
}

#[test]
fn services_follow_bound_ports() {
    let https = ServiceSpec { service_type: "_https._tcp".to_string(), port: 8443 };
    let http = ServiceSpec { service_type: "_http._tcp".to_string(), port: 8080 };
    assert_eq!(service_specs(Some(8443), Some(8080)), vec![https.clone(), http.clone()]);
    assert_eq!(service_specs(Some(8443), None), vec![https]);
    assert_eq!(service_specs(None, Some(8080)), vec![http]);
    assert_eq!(service_specs(None, None), Vec::<ServiceSpec>::new());
}

#[test]
fn shutdown_outcomes() {
    assert_eq!(shutdown_result(ShutdownOutcome::Signaled), Ok(()));
    assert_eq!(
        shutdown_result(ShutdownOutcome::Forced),
        Err("forced exit: a worker hung during the shutdown drain".to_string())
    );
    assert_eq!(
        shutdown_result(ShutdownOutcome::EarlyExit { worker: "http".to_string() }),
        Err("worker http exited early".to_string())
    );
}

#[test]
fn hostname_source_prefers_configured_name() {
    match hostname_source(Some("box")) {
        HostnameSource::Apply(name) => assert_eq!(name, "box"),
        HostnameSource::ReadFromOs => panic!("configured name must be applied"),
    }
    assert!(matches!(hostname_source(None), HostnameSource::ReadFromOs));
}

#[test]
fn os_feed_steps() {
    assert_eq!(os_feed_step(SettingsWake::Stop), OsAction::Exit);
    assert_eq!(os_feed_step(SettingsWake::Closed), OsAction::Exit);
    assert_eq!(
        os_feed_step(SettingsWake::HostnameChanged("box".to_string())),
        OsAction::ApplyHostname("box".to_string())
    );
    assert_eq!(os_feed_step(SettingsWake::OtherChange), OsAction::Ignore);
    assert_eq!(os_feed_step(SettingsWake::Lagged(3)), OsAction::ReportLag(3));
}

#[test]
fn flush_scope_detection() {
    assert_eq!(FLUSH_SPAN_NAME, "log_flush");
    assert!(within_flush(&vec!["storage_method", "log_flush"]));
    assert!(!within_flush(&vec!["request", "handler"]));
    assert!(!within_flush(&Vec::new()));
    assert!(new_span_skipped("log_flush", None, None));
    let in_flush = vec!["log_flush"];
    let outside = vec!["request"];
    assert!(new_span_skipped("storage_method", Some(&in_flush), None));
    assert!(!new_span_skipped("storage_method", Some(&outside), Some(&in_flush)));
    assert!(new_span_skipped("storage_method", None, Some(&in_flush)));
    assert!(!new_span_skipped("storage_method", None, Some(&outside)));
    assert!(!new_span_skipped("root", None, None));
}

#[test]
fn event_origin_prefers_log_fields() {
    let o = event_origin(
        Some("real::target".to_string()),
        None,
        Some(7),
        "log",
        Some("src/lib.rs"),
        Some(3),
    );
    assert_eq!(o.target, "real::target");
    assert_eq!(o.file.as_deref(), Some("src/lib.rs"));
    assert_eq!(o.line, Some(7));
    let m = event_origin(None, Some("a.rs".to_string()), None, "app", None, None);
    assert_eq!(m.target, "app");
    assert_eq!(m.file.as_deref(), Some("a.rs"));
    assert_eq!(m.line, None);
}

#[test]
fn writer_flushes_full_batches_and_on_exit() {
    let quiet = WriterAction { flush: false, close_spans: false, exit: false };
    let flush = WriterAction { flush: true, close_spans: false, exit: false };
    let done = WriterAction { flush: true, close_spans: true, exit: true };
    assert_eq!(FLUSH_BATCH, 128);
    assert_eq!(writer_step(1, WriterEvent::Record), quiet);
    assert_eq!(writer_step(127, WriterEvent::Record), quiet);
    assert_eq!(writer_step(128, WriterEvent::Record), flush);
    assert_eq!(writer_step(0, WriterEvent::Tick), quiet);
    assert_eq!(writer_step(5, WriterEvent::Tick), flush);
    assert_eq!(writer_step(0, WriterEvent::Stop), done);
    assert_eq!(writer_step(3, WriterEvent::Closed), done);
}

#[test]
fn flush_drains_the_batch_in_order_and_reports_drops() {
    let mut batch = vec!["a", "b", "c"];
    assert!(flush_plan(&mut batch, 5, false).is_none());
    assert_eq!(batch, vec!["a", "b", "c"]);
    let plan = flush_plan(&mut batch, 0, true).expect("opened");
    assert_eq!(plan.writes, vec!["a", "b", "c"]);
    assert_eq!(plan.report_dropped, None);
    assert!(batch.is_empty());
    let mut batch = vec![1u8];
    let plan = flush_plan(&mut batch, 7, true).expect("opened");
    assert_eq!(plan.writes, vec![1u8]);
    assert_eq!(plan.report_dropped, Some(7));
}

#[test]
fn dropped_count_survives_until_committed() {
    assert_eq!(dropped_after_flush(true, Some(7), 10), 3);
    assert_eq!(dropped_after_flush(false, Some(7), 10), 10);
    assert_eq!(dropped_after_flush(true, None, 4), 4);
    assert_eq!(dropped_after_send(true, 2), 2);
    assert_eq!(dropped_after_send(false, 2), 3);
    assert_eq!(dropped_after_send(false, u64::MAX), 0);
}
