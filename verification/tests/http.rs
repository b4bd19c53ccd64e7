use transaction_notifier::queries::http_request::{
    http_request, metrics_response, normalized_path, route, HeaderField, HttpRequest,
    HttpResponse, Route,
};

fn get(url: &str) -> HttpRequest {
    HttpRequest { method: "GET".to_string(), url: url.to_string(), headers: vec![], body: vec![] }
}

#[test]
fn metrics_path_is_served() {
    assert_eq!(http_request(&get("metrics")), Route::Metrics);
    assert_eq!(route(&"metrics".to_string()), Route::Metrics);
}

#[test]
fn slashes_around_the_path_are_ignored() {
    assert_eq!(http_request(&get("/metrics")), Route::Metrics);
    assert_eq!(http_request(&get("metrics/")), Route::Metrics);
    assert_eq!(http_request(&get("///metrics//")), Route::Metrics);
    assert_eq!(normalized_path("//a/b//"), "a/b");
    assert_eq!(normalized_path("///"), "");
}

#[test]
fn path_is_matched_in_lowercase() {
    assert_eq!(http_request(&get("/METRICS")), Route::Metrics);
    assert_eq!(http_request(&get("/Metrics/")), Route::Metrics);
    assert_eq!(normalized_path("/MeTrIcS"), "metrics");
}

#[test]
fn other_paths_are_not_found() {
    assert_eq!(http_request(&get("/")), Route::NotFound);
    assert_eq!(http_request(&get("")), Route::NotFound);
    assert_eq!(http_request(&get("/metrics/x")), Route::NotFound);
    assert_eq!(http_request(&get("/logs")), Route::NotFound);
    assert_eq!(route(&"Metrics".to_string()), Route::NotFound);
    assert_eq!(route(&"/metrics".to_string()), Route::NotFound);
}

#[test]
fn not_found_is_an_empty_404() {
    assert_eq!(
        HttpResponse::not_found(),
        HttpResponse { status_code: 404, headers: vec![], body: vec![] }
    );
    assert_eq!(
        HttpResponse::status_code(500),
        HttpResponse { status_code: 500, headers: vec![], body: vec![] }
    );
}

#[test]
fn metrics_answer_declares_type_and_length() {
    let body: Vec<u8> = vec![b'{', b'}'];
    assert_eq!(
        metrics_response(body.clone()),
        HttpResponse {
            status_code: 200,
            headers: vec![
                HeaderField("Content-Type".to_string(), "application/json".to_string()),
                HeaderField("Content-Length".to_string(), "2".to_string()),
            ],
            body,
        }
    );
    let long: Vec<u8> = vec![0; 1205];
    assert_eq!(metrics_response(long).headers[1].1, "1205");
    assert_eq!(metrics_response(vec![]).headers[1].1, "0");
}
