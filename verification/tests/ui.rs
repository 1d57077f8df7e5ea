use rally::dashboard_html;

#[test]
fn dashboard_is_a_complete_html_page() {
    let html = dashboard_html();
    assert!(html.starts_with("<!DOCTYPE html>") || html.starts_with("<!doctype html>"));
    assert!(html.trim_end().ends_with("</html>"));
    assert!(html.contains("/api/status"));
    assert!(html.contains("/api/events"));
}
