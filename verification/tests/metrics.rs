//! Tests for the Prometheus encoder and the whole observe pipeline.

use unbound_telemetry::metrics::{Measurement, MetricGuard};
use unbound_telemetry::numbers::Nanos;
use unbound_telemetry::{observe_text, Parser};

fn encode(text: &str) -> String {
    let stats = Parser::new().parse(text).unwrap();
    let m = Measurement::observe(stats);
    String::from_utf8(m.drain()).unwrap()
}

#[test]
fn parsing_is_deterministic() {
    let text = "total.num.queries=7\nnum.query.type.AAAA=5\nthread0.num.queries=7\n";
    assert_eq!(encode(text), encode(text));
}

#[test]
fn unknown_lines_do_not_change_the_encoding() {
    let plain = "total.num.queries=7\nnum.query.tcp=3\n";
    let noisy = "mystery.key=1\ntotal.num.queries=7\nnum.query.tcp=3\nfuture.thing.here=9\n";
    assert_eq!(encode(plain), encode(noisy));
}

#[test]
fn discovered_type_round_trips_through_the_encoder() {
    let out = encode("num.query.type.AAAA=100\n");
    assert!(out.contains("unbound_query_types_total{type=\"AAAA\"} 100\n"));
}

#[test]
fn discovered_class_and_opcode_round_trip() {
    let out = encode("num.query.class.CLASS7=3\nnum.query.opcode.QUERY=12\n");
    assert!(out.contains("unbound_query_classes_total{class=\"CLASS7\"} 3\n"));
    assert!(out.contains("unbound_query_opcodes_total{opcode=\"QUERY\"} 12\n"));
}

#[test]
fn rcode_series_renders_its_mnemonic() {
    let out = encode("num.answer.rcode.NXDOMAIN=23\n");
    assert!(out.contains("# TYPE unbound_answer_rcodes_total counter\n"));
    assert!(out.contains("unbound_answer_rcodes_total{rcode=\"NXDOMAIN\"} 23\n"));
}

#[test]
fn per_thread_family_header_is_emitted_once() {
    let out = encode(
        "thread0.num.queries=1\nthread1.num.queries=2\nthread2.num.queries=3\n",
    );
    assert_eq!(out.matches("# TYPE unbound_queries_total counter\n").count(), 1);
    assert_eq!(out.matches("# HELP unbound_queries_total ").count(), 1);
    assert_eq!(out.matches("unbound_queries_total{thread=").count(), 3);
    assert!(out.contains("unbound_queries_total{thread=\"0\"} 1\n"));
    assert!(out.contains("unbound_queries_total{thread=\"1\"} 2\n"));
    assert!(out.contains("unbound_queries_total{thread=\"2\"} 3\n"));
}

#[test]
fn histogram_family_renders_sum_count_and_buckets() {
    let out = encode(
        "histogram.000000.000000.to.000000.065536=2\nhistogram.000000.065536.to.000000.131072=5\ntotal.recursion.time.avg=0.280601\n",
    );
    assert!(out.contains("# TYPE unbound_response_time_seconds histogram\n"));
    // sum = 0.280601 x 7 = 1.964207 seconds
    assert!(out.contains("unbound_response_time_seconds_sum 1.964207\n"));
    assert!(out.contains("unbound_response_time_seconds_count 7\n"));
    assert!(out.contains("unbound_response_time_seconds_bucket{le=\"0.065536\"} 2\n"));
    assert!(out.contains("unbound_response_time_seconds_bucket{le=\"0.131072\"} 7\n"));
    assert!(out.contains("unbound_response_time_seconds_bucket{le=\"+Inf\"} 7\n"));
}

#[test]
fn durations_render_as_fractional_seconds() {
    let out = encode("time.up=32586.213697\n");
    assert!(out.contains("unbound_time_up_seconds_total 32586.213697\n"));

    let out = encode("time.up=7\n");
    assert!(out.contains("unbound_time_up_seconds_total 7.0\n"));
}

#[test]
fn thread_count_is_a_gauge() {
    let out = encode("thread0.num.queries=1\nthread1.num.queries=2\n");
    assert!(out.contains("# TYPE unbound_num_threads gauge\n"));
    assert!(out.contains("unbound_num_threads 2\n"));
}

#[test]
fn empty_rcode_map_emits_no_family_header() {
    let out = encode("num.query.tcp=1\n");
    assert!(!out.contains("unbound_answer_rcodes_total"));
}

#[test]
fn observe_text_appends_liveness_and_scrape_duration() {
    let out = observe_text("num.query.tcp=1\n", Nanos { nanos: 1_500_000 }).unwrap();
    let out = String::from_utf8(out).unwrap();
    assert!(out.contains("unbound_query_tcp_total 1\n"));
    assert!(out.contains("unbound_up 1\n"));
    assert!(out.contains("unbound_scrape_duration_seconds 0.0015\n"));
}

#[test]
fn observe_text_surfaces_the_parse_failure() {
    let err = observe_text("total.num.queries=bad\n", Nanos { nanos: 0 }).unwrap_err();
    assert!(matches!(
        err,
        unbound_telemetry::ParseError::ParseInt
    ));
}

#[test]
fn guard_suppresses_header_on_demand() {
    let m = Measurement::with_buffer_capacity(64);
    let mut m = m;
    let mut g = m.counter("queries_total", "Total number of queries received");
    g.needs_header(false);
    let v: u64 = 4;
    g.set_with_label(&mut m, "thread", &1usize, &v);
    let out = String::from_utf8(m.drain()).unwrap();
    assert_eq!(out, "unbound_queries_total{thread=\"1\"} 4\n");
}

#[test]
fn guard_emits_header_before_first_sample() {
    let mut m = Measurement::default();
    let mut g = MetricGuard::new("queries_total", "counter", "Total number of queries received");
    let v: u64 = 9;
    g.set(&mut m, &v);
    let out = String::from_utf8(m.drain()).unwrap();
    assert_eq!(
        out,
        "# TYPE unbound_queries_total counter\n# HELP unbound_queries_total Total number of queries received\nunbound_queries_total 9\n"
    );
}
