use rally::telemetry::{output_topic, process_output_event, sink_settings};

#[test]
fn disabled_sink_ignores_process_output() {
    assert!(sink_settings(None, Some("host".to_string())).is_none());
    let (topic, message) = process_output_event("api", "stdout", "hello");
    assert_eq!(topic, "rally:stdout");
    assert_eq!(message, "app=api hello");
}

#[test]
fn output_topics_follow_the_stream() {
    assert_eq!(output_topic("stdout"), "rally:stdout");
    assert_eq!(output_topic("stderr"), "rally:stderr");
    assert_eq!(output_topic("other"), "rally:output");
}

#[test]
fn sink_settings_for_a_url() {
    let s = sink_settings(Some("http://127.0.0.1:9100/ingest".to_string()), None).unwrap();
    assert_eq!(s.url, "http://127.0.0.1:9100/ingest");
    assert_eq!(s.user_agent, "rally/0.1.0");
    assert_eq!(s.filter, "rally*");
    assert_eq!(s.app, "rally");
    assert_eq!(s.runtime, "rust");
    assert_eq!(s.instance, None);
}
