use petshop_server::headers::Headers;
use petshop_server::metrics::Metrics;

#[test]
fn metrics_from_config_test() {
    let m = Metrics::from_config("petshop");
    assert_eq!(m.counter, 0);
    assert_eq!(m.error_counter, 0);
    assert_eq!(m.csrf_error_counter, 0);
    assert_eq!(m.validate_error_counter, 0);
    assert_eq!(m.internal_counter, 0);
    assert_eq!(m.internal_error_counter, 0);
    assert_eq!(m.ready, false);
    assert_eq!(m.postgres_ready, false);
    assert_eq!(m.latency.count, 0);
}

#[test]
fn counters_increment_test() {
    let mut m = Metrics::from_config("petshop");
    m.api_counter_inc();
    m.csrf_error_counter_inc();
    m.csrf_error_counter_inc();
    m.validate_error_counter_inc();
    m.internal_counter_inc();
    m.internal_error_counter_inc();
    m.api_ready(true);
    m.postgres_ready(true);
    assert_eq!(m.counter, 1);
    assert_eq!(m.csrf_error_counter, 2);
    assert_eq!(m.validate_error_counter, 1);
    assert_eq!(m.internal_counter, 1);
    assert_eq!(m.internal_error_counter, 1);
    assert_eq!(m.ready, true);
    assert_eq!(m.postgres_ready, true);
}

#[test]
fn request_counter_exact_test() {
    // a thousand counted requests end at exactly a thousand
    let mut m = Metrics::from_config("petshop");
    for _ in 0..1000 {
        let start = m.service_request_handler();
        m.service_response_handler(start, Some(&Headers::new()));
    }
    assert_eq!(m.counter, 1000);
    assert_eq!(m.error_counter, 0);
    assert_eq!(m.latency.count, 1000);
}

#[test]
fn response_error_counting_test() {
    let mut m = Metrics::from_config("petshop");
    let start = m.service_request_handler();
    // a clean response counts no error
    m.service_response_handler(start, Some(&Headers::new()));
    assert_eq!(m.error_counter, 0);
    // a failing status counts one
    let mut failed = Headers::new();
    failed.append("grpc-status", "13");
    m.service_response_handler(start, Some(&failed));
    assert_eq!(m.error_counter, 1);
    // an aborted request (no response headers) counts one too
    m.service_response_handler(start, None);
    assert_eq!(m.error_counter, 2);
}

#[test]
fn latency_histogram_test() {
    let mut m = Metrics::from_config("petshop");
    m.api_latency_record(7);
    assert_eq!(m.latency.count, 1);
    assert_eq!(m.latency.sum, 7);
    // a seven-millisecond sample lands in the third bucket (le 10)
    assert_eq!(m.latency.counts[0], 0);
    assert_eq!(m.latency.counts[1], 0);
    assert_eq!(m.latency.counts[2], 1);
    m.api_latency_record(9_999_999);
    // beyond every bound lands in the unbounded bucket
    assert_eq!(m.latency.counts[8], 1);
    assert_eq!(m.latency.sum, 10_000_006);
    assert_eq!(m.latency.count, 2);
}

#[test]
fn export_content_type_test() {
    let m = Metrics::from_config("petshop");
    let (content_type, _) = m.export();
    assert_eq!(content_type, "text/plain; version=0.0.4");
}

#[test]
fn export_exposition_test() {
    let mut m = Metrics::from_config("petshop");
    m.api_counter_inc();
    m.api_counter_inc();
    m.api_ready(true);
    m.api_latency_record(7);
    let (_, body) = m.export();
    let lines = [
        "# HELP petshop_api_ready 1 if API is ready, else 0.",
        "# TYPE petshop_api_ready gauge",
        "petshop_api_ready 1",
        "# HELP petshop_api_counter_total Total number of API server requests made.",
        "# TYPE petshop_api_counter_total counter",
        "petshop_api_counter_total 2",
        "# HELP petshop_api_error_counter_total Total number of API server errors.",
        "# TYPE petshop_api_error_counter_total counter",
        "petshop_api_error_counter_total 0",
        "# HELP petshop_api_latency_milliseconds The API server request latencies in milliseconds.",
        "# TYPE petshop_api_latency_milliseconds histogram",
        "petshop_api_latency_milliseconds_bucket{le=\"1\"} 0",
        "petshop_api_latency_milliseconds_bucket{le=\"5\"} 0",
        "petshop_api_latency_milliseconds_bucket{le=\"10\"} 1",
        "petshop_api_latency_milliseconds_bucket{le=\"50\"} 1",
        "petshop_api_latency_milliseconds_bucket{le=\"100\"} 1",
        "petshop_api_latency_milliseconds_bucket{le=\"500\"} 1",
        "petshop_api_latency_milliseconds_bucket{le=\"1000\"} 1",
        "petshop_api_latency_milliseconds_bucket{le=\"5000\"} 1",
        "petshop_api_latency_milliseconds_bucket{le=\"+Inf\"} 1",
        "petshop_api_latency_milliseconds_sum 7",
        "petshop_api_latency_milliseconds_count 1",
        "# HELP petshop_api_csrf_error_counter_total Total number of API server CSRF check errors.",
        "# TYPE petshop_api_csrf_error_counter_total counter",
        "petshop_api_csrf_error_counter_total 0",
        "# HELP petshop_api_validate_error_counter_total Total number of API server validation check errors.",
        "# TYPE petshop_api_validate_error_counter_total counter",
        "petshop_api_validate_error_counter_total 0",
        "# HELP petshop_internal_counter_total Total number of internal HTTP server requests made.",
        "# TYPE petshop_internal_counter_total counter",
        "petshop_internal_counter_total 0",
        "# HELP petshop_internal_error_counter_total Total number of internal HTTP server errors.",
        "# TYPE petshop_internal_error_counter_total counter",
        "petshop_internal_error_counter_total 0",
        "# HELP petshop_postgres_ready 1 if postgres is ready, else 0.",
        "# TYPE petshop_postgres_ready gauge",
        "petshop_postgres_ready 0",
    ];
    let mut expected = lines.join("\n");
    expected.push('\n');
    assert_eq!(body, expected);
}
