use seewo::{SeewoClient, SeewoSignType, SeewoStage, StreamingVideosRequest};

#[test]
fn new_client_defaults() {
    let c = SeewoClient::new("id".to_string(), "secret".to_string());
    assert_eq!(c.app_id, "id");
    assert_eq!(c.app_secret, "secret");
    assert_eq!(c.sign_type, SeewoSignType::Hmac);
    assert_eq!(c.stage, SeewoStage::Production);
    assert_eq!(c.get_host(), "https://openapi.seewo.com");
    let d = SeewoClient::default();
    assert_eq!(d.app_id, "");
    assert_eq!(d.stage, SeewoStage::default());
}

#[test]
fn development_host() {
    let mut c = SeewoClient::new("id".to_string(), "secret".to_string());
    c.stage = SeewoStage::Development;
    assert_eq!(c.get_host(), "https://openapi.test.seewo.com");
}

#[test]
fn names_of_algorithms_and_stages() {
    assert_eq!(SeewoSignType::Hmac.as_str(), "hmac");
    assert_eq!(SeewoSignType::Md5.as_str(), "md5");
    assert_eq!(SeewoSignType::from_name("md5"), Some(SeewoSignType::Md5));
    assert_eq!(SeewoSignType::from_name("hmac"), Some(SeewoSignType::Hmac));
    assert_eq!(SeewoSignType::from_name("HMAC"), None);
    assert_eq!(SeewoSignType::default(), SeewoSignType::Hmac);
    assert_eq!(SeewoStage::from_name("Development"), Some(SeewoStage::Development));
    assert_eq!(SeewoStage::from_name("Production"), Some(SeewoStage::Production));
    assert_eq!(SeewoStage::from_name("prod"), None);
    assert_eq!(SeewoStage::Development.as_str(), "Development");
}

#[test]
fn videos_request_query() {
    let r = StreamingVideosRequest { biz_id: "abc".to_string() };
    assert_eq!(r.queries(), vec![("bizId".to_string(), "abc".to_string())]);
}
