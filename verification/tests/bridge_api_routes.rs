use zkteco_bridge::bridge_api::{api_json, api_options, api_route, not_found_response, plan_sync, ApiRoute};

fn codes(v: &[&str]) -> Vec<String> {
    v.iter().map(|s| s.to_string()).collect()
}

fn body_of(response: &str) -> &str {
    response.split("\r\n\r\n").nth(1).unwrap()
}

#[test]
fn requests_are_routed_by_method_and_path() {
    assert_eq!(api_route("GET", "/health"), ApiRoute::Health);
    assert_eq!(api_route("POST", "/sync"), ApiRoute::Sync);
    assert_eq!(api_route("OPTIONS", "/anything"), ApiRoute::Options);
    assert_eq!(api_route("GET", "/sync"), ApiRoute::NotFound);
    assert!(api_options().starts_with("HTTP/1.1 204 No Content\r\n"));
}

#[test]
fn json_answers_carry_status_cors_and_length() {
    assert_eq!(
        api_json(200, "{\"a\":\"é\"}"),
        "HTTP/1.1 200 OK\r\nContent-Type: application/json\r\nAccess-Control-Allow-Origin: *\r\nContent-Length: 10\r\nConnection: close\r\n\r\n{\"a\":\"é\"}"
    );
    let nf = not_found_response();
    assert!(nf.starts_with("HTTP/1.1 404 Not Found\r\n"));
    assert_eq!(body_of(&nf), "{\n  \"error\": \"not found\"\n}");
}

#[test]
fn sync_all_starts_idle_devices_and_reports_busy_ones() {
    let answer = plan_sync("", &codes(&["A", "B", "C"]), &vec![false, true, false]);
    assert_eq!(answer.start, vec![0, 2]);
    assert!(answer.response.starts_with("HTTP/1.1 202 Accepted\r\n"));
    assert_eq!(
        body_of(&answer.response),
        "{\n  \"message\": \"sync started\",\n  \"ok\": true,\n  \"skipped\": [\n    \"B\"\n  ],\n  \"started\": [\n    \"A\",\n    \"C\"\n  ]\n}"
    );
    let none = plan_sync("", &codes(&[]), &vec![]);
    assert!(none.start.is_empty());
    assert_eq!(
        body_of(&none.response),
        "{\n  \"message\": \"sync started\",\n  \"ok\": true,\n  \"skipped\": [],\n  \"started\": []\n}"
    );
}

#[test]
fn sync_one_device_by_code() {
    let list = codes(&["A", "B"]);
    let answer = plan_sync("device=B", &list, &vec![false, false]);
    assert_eq!(answer.start, vec![1]);
    assert_eq!(body_of(&answer.response), "{\n  \"message\": \"sync started for B\",\n  \"ok\": true\n}");

    let busy = plan_sync("device=B", &list, &vec![false, true]);
    assert!(busy.start.is_empty());
    assert!(busy.response.starts_with("HTTP/1.1 429 Too Many Requests\r\n"));
    assert_eq!(body_of(&busy.response), "{\n  \"error\": \"[B] sync already in progress\"\n}");

    let unknown = plan_sync("device=Z", &list, &vec![false, false]);
    assert!(unknown.start.is_empty());
    assert!(unknown.response.starts_with("HTTP/1.1 404 Not Found\r\n"));
    assert_eq!(body_of(&unknown.response), "{\n  \"error\": \"device 'Z' not found in config\"\n}");
}
