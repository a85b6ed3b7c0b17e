//! The client configuration, the logical request, and the response.

use vstd::prelude::*;

verus! {

#[verifier::external_type_specification]
#[verifier::external_body]
pub struct ExMethod(reqwest::Method);

#[verifier::external_type_specification]
#[verifier::external_body]
pub struct ExValue(serde_json::Value);

/// Key/value pairs: template variables, query parameters or headers.
pub type KvPairs = Vec<(String, String)>;

/// The signature algorithm of a client.
#[derive(Debug, Clone, Copy, PartialEq, Eq, Structural)]
pub enum SeewoSignType {
    /// HMAC over MD5, keyed with the secret.
    Hmac,
    /// MD5 of the signing string with the secret before and after it.
    Md5,
}

impl SeewoSignType {
    /// The name that the `x-sw-sign-type` header carries.
    pub open spec fn name(self) -> Seq<char> {
        match self {
            SeewoSignType::Hmac => seq!['h', 'm', 'a', 'c'],
            SeewoSignType::Md5 => seq!['m', 'd', '5'],
        }
    }

    /// The name of the algorithm on the wire.
    pub fn as_str(&self) -> (r: &'static str)
        ensures
            r@ == self.name(),
    {
        proof {
            reveal_strlit("hmac");
            reveal_strlit("md5");
        }
        match self {
            SeewoSignType::Hmac => "hmac",
            SeewoSignType::Md5 => "md5",
        }
    }

    /// The algorithm with the given wire name, if any.
    pub fn from_name(s: &str) -> (r: Option<SeewoSignType>)
        ensures
            r == (if s@ == SeewoSignType::Hmac.name() {
                Some(SeewoSignType::Hmac)
            } else if s@ == SeewoSignType::Md5.name() {
                Some(SeewoSignType::Md5)
            } else {
                None
            }),
    {
        let t = s.to_owned();
        if t == SeewoSignType::Hmac.as_str().to_owned() {
            Some(SeewoSignType::Hmac)
        } else if t == SeewoSignType::Md5.as_str().to_owned() {
            Some(SeewoSignType::Md5)
        } else {
            None
        }
    }
}

impl Default for SeewoSignType {
    fn default() -> (r: SeewoSignType)
        ensures
            r == SeewoSignType::Hmac,
    {
        SeewoSignType::Hmac
    }
}

/// The deployment stage, which selects the API host.
#[derive(Debug, Clone, Copy, PartialEq, Eq, Structural)]
pub enum SeewoStage {
    Development,
    Production,
}

impl SeewoStage {
    /// The name of the stage.
    pub open spec fn name(self) -> Seq<char> {
        match self {
            SeewoStage::Development => seq!['D', 'e', 'v', 'e', 'l', 'o', 'p', 'm', 'e', 'n', 't'],
            SeewoStage::Production => seq!['P', 'r', 'o', 'd', 'u', 'c', 't', 'i', 'o', 'n'],
        }
    }

    /// The name of the stage, as configuration spells it.
    pub fn as_str(&self) -> (r: &'static str)
        ensures
            r@ == self.name(),
    {
        proof {
            reveal_strlit("Development");
            reveal_strlit("Production");
        }
        match self {
            SeewoStage::Development => "Development",
            SeewoStage::Production => "Production",
        }
    }

    /// The stage with the given name, if any.
    pub fn from_name(s: &str) -> (r: Option<SeewoStage>)
        ensures
            r == (if s@ == SeewoStage::Development.name() {
                Some(SeewoStage::Development)
            } else if s@ == SeewoStage::Production.name() {
                Some(SeewoStage::Production)
            } else {
                None
            }),
    {
        let t = s.to_owned();
        if t == SeewoStage::Development.as_str().to_owned() {
            Some(SeewoStage::Development)
        } else if t == SeewoStage::Production.as_str().to_owned() {
            Some(SeewoStage::Production)
        } else {
            None
        }
    }

    /// The base URL of the API at this stage.
    pub open spec fn host(self) -> Seq<char> {
        match self {
            SeewoStage::Development => "https://openapi.test.seewo.com"@,
            SeewoStage::Production => "https://openapi.seewo.com"@,
        }
    }
}

impl Default for SeewoStage {
    fn default() -> (r: SeewoStage)
        ensures
            r == SeewoStage::Production,
    {
        SeewoStage::Production
    }
}

/// The errors of building, sending and decoding a request.
#[derive(Debug, Clone, PartialEq, Eq)]
pub enum SeewoError {
    /// The transport could not send the request.
    ClientError { message: String },
    /// The URI template names a missing variable or is malformed.
    BuildUriError,
    /// The host and resolved path do not form a valid URL.
    BuildUri2Error,
    /// The transport refused the request as built.
    BuildRequestError { message: String },
    /// The response body could not be read.
    ResponseError { message: String },
    /// The response body is not JSON of the expected shape.
    JsonError,
    /// A header name is not a valid HTTP header name.
    InvalidHeaderNameError { name: String, value: String },
    /// A header value holds characters that HTTP does not allow.
    InvalidHeaderValueError { name: String, value: String },
    /// The server answered with a status outside 200..=299.
    ResponseStatusCodeError { status_code: u16 },
}

/// The credentials, algorithm and stage of a client.
#[derive(Debug, Clone)]
pub struct SeewoClient {
    pub app_id: String,
    pub app_secret: String,
    pub sign_type: SeewoSignType,
    pub stage: SeewoStage,
}

impl SeewoClient {
    /// A client for the given credentials, signing with HMAC in production.
    pub fn new(app_id: String, app_secret: String) -> (r: SeewoClient)
        ensures
            r.app_id == app_id,
            r.app_secret == app_secret,
            r.sign_type == SeewoSignType::Hmac,
            r.stage == SeewoStage::Production,
    {
        SeewoClient { app_id, app_secret, sign_type: SeewoSignType::Hmac, stage: SeewoStage::Production }
    }

    /// The base URL that the client's stage selects.
    pub fn get_host(&self) -> (r: &'static str)
        ensures
            r@ == self.stage.host(),
    {
        match self.stage {
            SeewoStage::Development => "https://openapi.test.seewo.com",
            SeewoStage::Production => "https://openapi.seewo.com",
        }
    }
}

impl Default for SeewoClient {
    fn default() -> (r: SeewoClient)
        ensures
            r.app_id@.len() == 0,
            r.app_secret@.len() == 0,
            r.sign_type == SeewoSignType::Hmac,
            r.stage == SeewoStage::Production,
    {
        SeewoClient::new(String::new(), String::new())
    }
}

/// A logical request: method, URI template with its variables, query
/// parameters, custom headers and an optional raw body.
#[derive(Debug)]
pub struct SeewoRequest {
    pub method: reqwest::Method,
    pub uri: String,
    pub vars: KvPairs,
    pub queries: KvPairs,
    pub headers: KvPairs,
    pub body: Option<Vec<u8>>,
}

/// A decoded response: the two informational headers and the JSON body.
#[derive(Debug)]
pub struct SeewoResponse {
    pub request_id: Option<String>,
    pub message: Option<String>,
    pub body: serde_json::Value,
}

} // verus!
