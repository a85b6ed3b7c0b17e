use seewo::request::merge_header_pairs;
use seewo::{SeewoClient, SeewoError, SeewoHttpMethod, SeewoRequest, SeewoSignType, SeewoStage};

fn pairs(items: &[(&str, &str)]) -> Vec<(String, String)> {
    items.iter().map(|(k, v)| (k.to_string(), v.to_string())).collect()
}

fn request(uri: &str) -> SeewoRequest {
    SeewoRequest {
        method: SeewoHttpMethod::GET,
        uri: uri.to_string(),
        vars: Vec::new(),
        queries: Vec::new(),
        headers: Vec::new(),
        body: None,
    }
}

fn value<'a>(headers: &'a [(String, String)], key: &str) -> Option<&'a str> {
    headers.iter().find(|(k, _)| k == key).map(|(_, v)| v.as_str())
}

#[test]
fn template_resolves_variables() {
    let mut req = request("/live/{x}/y");
    req.vars = pairs(&[("x", "42")]);
    assert_eq!(req.get_uri(), Ok("/live/42/y".to_string()));
}

#[test]
fn template_with_missing_variable_fails() {
    let req = request("/live/{x}/y");
    assert_eq!(req.get_uri(), Err(SeewoError::BuildUriError));
    let client = SeewoClient::new("app1".to_string(), "sec1".to_string());
    assert_eq!(req.build_sw_headers(&client, 1).unwrap_err(), SeewoError::BuildUriError);
}

#[test]
fn ping_end_to_end_headers() {
    let client = SeewoClient::new("app1".to_string(), "sec1".to_string());
    let req = request("/ping");
    let h = req.build_sw_headers(&client, 1700000000000).unwrap();
    assert_eq!(value(&h, "x-sw-app-id"), Some("app1"));
    assert_eq!(value(&h, "x-sw-req-path"), Some("/ping"));
    assert_eq!(value(&h, "x-sw-version"), Some("2"));
    assert_eq!(value(&h, "x-sw-timestamp"), Some("1700000000000"));
    assert_eq!(value(&h, "x-sw-sign-type"), Some("hmac"));
    assert_eq!(value(&h, "x-sw-sign-headers"), None);
    assert_eq!(value(&h, "x-sw-content-md5"), None);
    let sign = value(&h, "x-sw-sign").unwrap();
    assert_eq!(sign.len(), 32);
    assert!(sign.chars().all(|c| c.is_ascii_digit() || ('A'..='F').contains(&c)));
    assert_eq!(sign, "190C07AD734CB42DA7751BA88650383E");
    assert_eq!(h.last().unwrap().0, "x-sw-sign");
}

#[test]
fn sign_headers_list_custom_names_in_order() {
    let client = SeewoClient::new("app1".to_string(), "sec1".to_string());
    let mut req = request("/ping");
    req.headers = pairs(&[("b-h", "1"), ("a-h", "2")]);
    let h = req.build_sw_headers(&client, 5).unwrap();
    assert_eq!(value(&h, "x-sw-sign-headers"), Some("b-h,a-h"));
    assert_eq!(value(&h, "x-sw-timestamp"), Some("5"));
}

#[test]
fn body_digest_header() {
    let mut client = SeewoClient::new("app1".to_string(), "sec1".to_string());
    client.sign_type = SeewoSignType::Md5;
    let mut req = request("/ping");
    req.body = Some(b"{}".to_vec());
    let h = req.build_sw_headers(&client, 0).unwrap();
    assert_eq!(value(&h, "x-sw-content-md5"), Some("99914B932BD37A50B983C5E7C90AE93B"));
    assert_eq!(value(&h, "x-sw-sign-type"), Some("md5"));
    assert_eq!(value(&h, "x-sw-timestamp"), Some("0"));
}

#[test]
fn protocol_headers_win_on_shared_key() {
    let merged = merge_header_pairs(
        &pairs(&[("x-sw-version", "9"), ("a", "1")]),
        &pairs(&[("x-sw-version", "2")]),
    );
    assert_eq!(merged, pairs(&[("a", "1"), ("x-sw-version", "2")]));
}

#[test]
fn build_request_materialises() {
    let mut client = SeewoClient::new("app1".to_string(), "sec1".to_string());
    client.stage = SeewoStage::Development;
    let mut req = request("/live/{id}");
    req.vars = pairs(&[("id", "7")]);
    req.queries = pairs(&[("bizId", "a b&c")]);
    req.headers = pairs(&[("x-custom", "v")]);
    req.body = Some(b"{\"k\":1}".to_vec());
    let d = req.build_request(&client, 42).unwrap();
    assert_eq!(d.url.as_str(), "https://openapi.test.seewo.com/live/7?bizId=a+b%26c");
    assert_eq!(d.timeout_secs, 15);
    assert_eq!(d.body, Some(b"{\"k\":1}".to_vec()));
    assert_eq!(d.headers[0], ("x-custom".to_string(), "v".to_string()));
    assert_eq!(value(&d.headers, "x-sw-sign-headers"), Some("x-custom"));
    assert_eq!(value(&d.headers, "x-sw-req-path"), Some("/live/7"));
}

#[test]
fn invalid_header_name_is_reported() {
    let client = SeewoClient::new("app1".to_string(), "sec1".to_string());
    let mut req = request("/ping");
    req.headers = pairs(&[("bad name", "v")]);
    assert_eq!(
        req.build_request(&client, 1).unwrap_err(),
        SeewoError::InvalidHeaderNameError { name: "bad name".to_string(), value: "v".to_string() }
    );
}

#[test]
fn invalid_header_value_is_reported() {
    let client = SeewoClient::new("app1".to_string(), "sec1".to_string());
    let mut req = request("/ping");
    req.headers = pairs(&[("x-ok", "line\nbreak")]);
    assert_eq!(
        req.build_request(&client, 1).unwrap_err(),
        SeewoError::InvalidHeaderValueError { name: "x-ok".to_string(), value: "line\nbreak".to_string() }
    );
}

#[test]
fn malformed_url_is_reported() {
    let client = SeewoClient::new("app1".to_string(), "sec1".to_string());
    let req = request(":99999999/x");
    assert_eq!(req.build_request(&client, 1).unwrap_err(), SeewoError::BuildUri2Error);
}

#[test]
fn headers_for_resolved_path() {
    let client = SeewoClient::new("app1".to_string(), "sec1".to_string());
    let req = request("/ignored/{x}");
    let h = req.sw_headers_for_path(&client, "/ping".to_string(), 1700000000000);
    assert_eq!(value(&h, "x-sw-req-path"), Some("/ping"));
    assert_eq!(value(&h, "x-sw-sign"), Some("190C07AD734CB42DA7751BA88650383E"));
}
