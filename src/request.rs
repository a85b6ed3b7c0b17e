//! Turning a logical request into a signed, transport-ready one: template
//! resolution, protocol headers, header merging and validation, and the URL.

use vstd::prelude::*;
use vstd::utf8::encode_utf8;
use vstd::string::StringExecFns;
use std::collections::HashMap;
use std::str::FromStr;
use reqwest::header::{HeaderName, HeaderValue};
use crate::client::{KvPairs, SeewoClient, SeewoError, SeewoRequest};
use crate::sign::{md5_upper_hex, pairs_view, sign_params, signature, upper_hex, md5_of, PairView};

verus! {

#[verifier::external_type_specification]
#[verifier::external_body]
pub struct ExFmtError(strfmt::FmtError);

#[verifier::external_type_specification]
#[verifier::external_body]
pub struct ExUrl(url::Url);

#[verifier::external_type_specification]
#[verifier::external_body]
pub struct ExParseError(url::ParseError);

/// The timeout, in seconds, of every materialised request.
pub const REQUEST_TIMEOUT_SECS: u64 = 15;

/// The variables as a map; a later pair overrides an earlier one of equal key.
pub open spec fn kv_map(s: Seq<PairView>) -> Map<Seq<char>, Seq<char>>
    decreases s.len(),
{
    if s.len() == 0 {
        Map::empty()
    } else {
        kv_map(s.drop_last()).insert(s.last().0, s.last().1)
    }
}

/// What strfmt makes of a template and its variables, if it succeeds.
pub uninterp spec fn template_of(template: Seq<char>, vars: Map<Seq<char>, Seq<char>>) -> Option<Seq<char>>;

/// Relies on `strfmt::strfmt`: each `{name}` is replaced by its variable;
/// the result is a function of the template and of the map alone.
#[verifier::external_body]
fn format_template(template: &str, vars: &KvPairs) -> (r: Result<String, strfmt::FmtError>)
    ensures
        match r {
            Ok(s) => template_of(template@, kv_map(pairs_view(vars@))) == Some(s@),
            Err(_) => template_of(template@, kv_map(pairs_view(vars@))) is None,
        },
{
    let map: HashMap<String, String> = vars.iter().cloned().collect();
    strfmt::strfmt(template, &map)
}

/// The resolved path of a request, if its template resolves.
pub open spec fn resolved_path(req: SeewoRequest) -> Option<Seq<char>> {
    template_of(req.uri@, kv_map(pairs_view(req.vars@)))
}

/// Decimal digits of `n`, most significant first, without leading zeros.
pub open spec fn decimal(n: nat) -> Seq<char>
    decreases n,
{
    if n < 10 {
        seq![crate::sign::hex_digits()[n as int]]
    } else {
        decimal(n / 10).push(crate::sign::hex_digits()[(n % 10) as int])
    }
}

/// Relies on `ToString` for `u128`, which writes the number in decimal.
#[verifier::external_body]
fn decimal_string(n: u128) -> (r: String)
    ensures
        r@ == decimal(n as nat),
{
    n.to_string()
}

/// The names, joined by commas.
pub open spec fn join_comma(names: Seq<Seq<char>>) -> Seq<char>
    decreases names.len(),
{
    if names.len() == 0 {
        Seq::empty()
    } else if names.len() == 1 {
        names[0]
    } else {
        join_comma(names.drop_last()) + seq![','] + names.last()
    }
}

/// The keys of the pairs, in order.
pub open spec fn keys_of(s: Seq<PairView>) -> Seq<Seq<char>> {
    Seq::new(s.len(), |i: int| s[i].0)
}

/// The protocol headers that are signed, in the order they are built.
pub open spec fn unsigned_headers(req: SeewoRequest, config: SeewoClient, path: Seq<char>, now_millis: nat) -> Seq<PairView> {
    let base = seq![
        ("x-sw-app-id"@, config.app_id@),
        ("x-sw-req-path"@, path),
        ("x-sw-version"@, "2"@),
        ("x-sw-timestamp"@, decimal(now_millis)),
    ];
    let names = keys_of(pairs_view(req.headers@));
    let with_names = if names.len() == 0 {
        base
    } else {
        base.push(("x-sw-sign-headers"@, join_comma(names)))
    };
    let with_type = with_names.push(("x-sw-sign-type"@, config.sign_type.name()));
    match req.body {
        Some(b) => with_type.push(("x-sw-content-md5"@, upper_hex(md5_of(b@)))),
        None => with_type,
    }
}

/// The parameters that are signed: queries, custom headers, then protocol headers.
pub open spec fn signed_params(req: SeewoRequest, config: SeewoClient, path: Seq<char>, now_millis: nat) -> Seq<PairView> {
    pairs_view(req.queries@) + pairs_view(req.headers@) + unsigned_headers(req, config, path, now_millis)
}

/// All protocol headers: the signed ones, then the signature.
pub open spec fn protocol_headers(req: SeewoRequest, config: SeewoClient, path: Seq<char>, now_millis: nat) -> Seq<PairView> {
    unsigned_headers(req, config, path, now_millis).push(
        ("x-sw-sign"@, signature(config.app_secret@, config.sign_type, signed_params(req, config, path, now_millis))),
    )
}

/// Whether some pair of `s` has key `k`.
pub open spec fn has_key(s: Seq<PairView>, k: Seq<char>) -> bool {
    exists|i: int| 0 <= i < s.len() && #[trigger] s[i].0 == k
}

/// The pairs of `s` whose key no pair of `over` has, in order.
pub open spec fn not_overridden(s: Seq<PairView>, over: Seq<PairView>) -> Seq<PairView>
    decreases s.len(),
{
    if s.len() == 0 {
        s
    } else if has_key(over, s.last().0) {
        not_overridden(s.drop_last(), over)
    } else {
        not_overridden(s.drop_last(), over).push(s.last())
    }
}

/// Custom headers merged with protocol headers; protocol headers win on a
/// shared key.
pub open spec fn merge_headers(custom: Seq<PairView>, protocol: Seq<PairView>) -> Seq<PairView> {
    not_overridden(custom, protocol) + protocol
}

/// The largest length of a header name that HTTP accepts.
pub open spec fn max_header_name_len() -> nat {
    65535
}

/// A byte that may stand in a header name (a token character).
pub open spec fn is_token_byte(b: u8) -> bool {
    // digits, lower and upper case letters, then !#$%&'*+-.^_`|~
    ||| (48 <= b <= 57)
    ||| (97 <= b <= 122)
    ||| (65 <= b <= 90)
    ||| b == 33 || b == 35 || b == 36 || b == 37 || b == 38 || b == 39
    ||| b == 42 || b == 43 || b == 45 || b == 46 || b == 94 || b == 95
    ||| b == 96 || b == 124 || b == 126
}

/// A valid header name: 1 to 65535 token bytes.
pub open spec fn valid_header_name(b: Seq<u8>) -> bool {
    &&& 1 <= b.len() <= max_header_name_len()
    &&& forall|i: int| 0 <= i < b.len() ==> is_token_byte(#[trigger] b[i])
}

/// A valid header value: tabs and bytes from 32 up, but 127.
pub open spec fn valid_header_value(b: Seq<u8>) -> bool {
    forall|i: int| 0 <= i < b.len() ==> ((#[trigger] b[i] >= 32 && b[i] != 127) || b[i] == 9)
}

/// A header whose name and value HTTP both accept.
pub open spec fn header_ok(p: PairView) -> bool {
    valid_header_name(encode_utf8(p.0)) && valid_header_value(encode_utf8(p.1))
}

/// Relies on http's `HeaderName::from_str` (through reqwest): it accepts
/// 1 to 65535 bytes, each one that its table of token characters maps.
#[verifier::external_body]
fn header_name_accepted(name: &str) -> (r: bool)
    ensures
        r == valid_header_name(encode_utf8(name@)),
{
    HeaderName::from_str(name).is_ok()
}

/// Relies on http's `HeaderValue::from_str` (through reqwest): it accepts
/// exactly the strings whose bytes are a tab or at least 32 and not 127.
#[verifier::external_body]
fn header_value_accepted(value: &str) -> (r: bool)
    ensures
        r == valid_header_value(encode_utf8(value@)),
{
    HeaderValue::from_str(value).is_ok()
}

/// Whether `s` parses as an absolute URL.
pub uninterp spec fn url_parse_ok(s: Seq<char>) -> bool;

/// The query pairs of a URL, decoded, in order.
pub uninterp spec fn url_query_pairs(u: url::Url) -> Seq<PairView>;

/// Relies on `url::Url::parse`; whether it succeeds depends on the text alone.
#[verifier::external_body]
fn parse_url(s: &str) -> (r: Result<url::Url, url::ParseError>)
    ensures
        r is Ok == url_parse_ok(s@),
{
    url::Url::parse(s)
}

/// Relies on `url::Url::query_pairs_mut().append_pair`, which percent-encodes
/// the pair and appends it, so that `query_pairs` then yields it last.
#[verifier::external_body]
fn append_query_pair(u: &mut url::Url, key: &str, value: &str)
    ensures
        url_query_pairs(*final(u)) == url_query_pairs(*old(u)).push((key@, value@)),
{
    u.query_pairs_mut().append_pair(key, value);
}

/// A request ready for the transport.
#[derive(Debug)]
pub struct PreparedRequest {
    /// The absolute URL, with the query parameters appended.
    pub url: url::Url,
    /// Custom headers merged with the protocol headers.
    pub headers: KvPairs,
    /// The raw body, sent as JSON.
    pub body: Option<Vec<u8>>,
    /// The request timeout.
    pub timeout_secs: u64,
}

/// An optional body, as bytes.
pub open spec fn body_view(b: Option<Vec<u8>>) -> Option<Seq<u8>> {
    match b {
        Some(v) => Some(v@),
        None => None,
    }
}

/// Every header of `s` has a valid name and value.
pub open spec fn all_headers_ok(s: Seq<PairView>) -> bool {
    forall|i: int| 0 <= i < s.len() ==> header_ok(#[trigger] s[i])
}

/// `e` reports the pair `p`: a bad name first, else a bad value.
pub open spec fn reports_header(e: SeewoError, p: PairView) -> bool {
    match e {
        SeewoError::InvalidHeaderNameError { name, value } => {
            &&& name@ == p.0
            &&& value@ == p.1
            &&& !valid_header_name(encode_utf8(p.0))
        },
        SeewoError::InvalidHeaderValueError { name, value } => {
            &&& name@ == p.0
            &&& value@ == p.1
            &&& valid_header_name(encode_utf8(p.0))
            &&& !valid_header_value(encode_utf8(p.1))
        },
        _ => false,
    }
}

/// `e` reports the first pair of `s` that is not a valid header.
pub open spec fn reports_first_bad_header(e: SeewoError, s: Seq<PairView>) -> bool {
    exists|i: int|
        0 <= i < s.len() && all_headers_ok(s.take(i)) && !header_ok(#[trigger] s[i]) && reports_header(e, s[i])
}

/// Appends copies of the pairs of `src` to `out`.
fn extend_pairs(out: &mut KvPairs, src: &KvPairs)
    ensures
        pairs_view(final(out)@) == pairs_view(old(out)@) + pairs_view(src@),
{
    let mut i: usize = 0;
    while i < src.len()
        invariant
            i <= src@.len(),
            pairs_view(out@) == pairs_view(old(out)@) + pairs_view(src@).take(i as int),
        decreases src@.len() - i,
    {
        let ghost before = out@;
        out.push((src[i].0.clone(), src[i].1.clone()));
        assert(pairs_view(out@) =~= pairs_view(before).push(pairs_view(src@)[i as int]));
        assert(pairs_view(src@).take(i + 1) =~= pairs_view(src@).take(i as int).push(pairs_view(src@)[i as int]));
        i = i + 1;
    }
    assert(pairs_view(src@).take(src@.len() as int) =~= pairs_view(src@));
}

/// Whether some pair of `s` has the key `k`.
fn contains_key(s: &KvPairs, k: &String) -> (r: bool)
    ensures
        r == has_key(pairs_view(s@), k@),
{
    let mut i: usize = 0;
    while i < s.len()
        invariant
            i <= s@.len(),
            forall|j: int| 0 <= j < i ==> pairs_view(s@)[j].0 != k@,
        decreases s@.len() - i,
    {
        if s[i].0 == *k {
            assert(pairs_view(s@)[i as int].0 == k@);
            return true;
        }
        i = i + 1;
    }
    false
}

/// Custom headers merged with protocol headers; protocol headers win.
pub fn merge_header_pairs(custom: &KvPairs, protocol: &KvPairs) -> (r: KvPairs)
    ensures
        pairs_view(r@) == merge_headers(pairs_view(custom@), pairs_view(protocol@)),
{
    let ghost cv = pairs_view(custom@);
    let ghost pv = pairs_view(protocol@);
    let mut out: KvPairs = Vec::new();
    let mut i: usize = 0;
    assert(cv.take(0) =~= Seq::<PairView>::empty());
    assert(pairs_view(out@) =~= Seq::<PairView>::empty());
    while i < custom.len()
        invariant
            i <= custom@.len(),
            cv == pairs_view(custom@),
            pv == pairs_view(protocol@),
            pairs_view(out@) == not_overridden(cv.take(i as int), pv),
        decreases custom@.len() - i,
    {
        assert(cv.take(i + 1).drop_last() =~= cv.take(i as int));
        assert(cv.take(i + 1).last() == cv[i as int]);
        if !contains_key(protocol, &custom[i].0) {
            let ghost before = out@;
            out.push((custom[i].0.clone(), custom[i].1.clone()));
            assert(pairs_view(out@) =~= pairs_view(before).push(cv[i as int]));
        }
        i = i + 1;
    }
    assert(cv.take(custom@.len() as int) =~= cv);
    extend_pairs(&mut out, protocol);
    out
}

/// Checks each header name, then its value, as HTTP requires; the first
/// pair that fails is reported.
pub fn check_headers(pairs: &KvPairs) -> (r: Result<(), SeewoError>)
    ensures
        match r {
            Ok(_) => all_headers_ok(pairs_view(pairs@)),
            Err(e) => !all_headers_ok(pairs_view(pairs@)) && reports_first_bad_header(e, pairs_view(pairs@)),
        },
{
    let ghost pv = pairs_view(pairs@);
    let mut i: usize = 0;
    while i < pairs.len()
        invariant
            i <= pairs@.len(),
            pv == pairs_view(pairs@),
            all_headers_ok(pv.take(i as int)),
        decreases pairs@.len() - i,
    {
        let name = &pairs[i].0;
        let value = &pairs[i].1;
        assert(pv[i as int] == (name@, value@));
        if !header_name_accepted(name.as_str()) {
            let e = SeewoError::InvalidHeaderNameError { name: name.clone(), value: value.clone() };
            assert(reports_header(e, pv[i as int]));
            return Err(e);
        }
        if !header_value_accepted(value.as_str()) {
            let e = SeewoError::InvalidHeaderValueError { name: name.clone(), value: value.clone() };
            assert(reports_header(e, pv[i as int]));
            return Err(e);
        }
        assert(forall|j: int| 0 <= j < i + 1 ==> #[trigger] pv.take(i + 1)[j] == if j < i { pv.take(i as int)[j] } else { pv[i as int] });
        i = i + 1;
    }
    assert(pv.take(pairs@.len() as int) =~= pv);
    Ok(())
}

/// The names of the pairs, joined by commas.
fn join_keys(pairs: &KvPairs) -> (r: String)
    ensures
        r@ == join_comma(keys_of(pairs_view(pairs@))),
{
    let ghost names = keys_of(pairs_view(pairs@));
    let mut out = String::new();
    let mut i: usize = 0;
    proof {
        reveal_strlit(",");
    }
    assert(names.take(0) =~= Seq::<Seq<char>>::empty());
    while i < pairs.len()
        invariant
            i <= pairs@.len(),
            names == keys_of(pairs_view(pairs@)),
            out@ == join_comma(names.take(i as int)),
        decreases pairs@.len() - i,
    {
        assert(names.take(i + 1).drop_last() =~= names.take(i as int));
        assert(names.take(i + 1).last() == pairs@[i as int].0@);
        proof {
            reveal_strlit(",");
        }
        if i > 0 {
            out.append(",");
        } else {
            assert(out@ =~= Seq::<char>::empty());
        }
        let ghost mid = out@;
        out.append(pairs[i].0.as_str());
        proof {
            if i == 0 {
                assert(names.take(1).len() == 1);
                assert(out@ =~= names.take(1)[0]);
            } else {
                assert(mid =~= join_comma(names.take(i as int)) + seq![',']);
                assert(out@ =~= join_comma(names.take(i as int)) + seq![','] + names.take(i + 1).last());
            }
        }
        i = i + 1;
    }
    assert(names.take(pairs@.len() as int) =~= names);
    out
}

impl SeewoRequest {
    /// The path that the URI template resolves to.
    pub fn get_uri(&self) -> (r: Result<String, SeewoError>)
        ensures
            match resolved_path(*self) {
                Some(p) => r matches Ok(s) && s@ == p,
                None => r == Err::<String, SeewoError>(SeewoError::BuildUriError),
            },
    {
        match format_template(self.uri.as_str(), &self.vars) {
            Ok(s) => Ok(s),
            Err(_) => Err(SeewoError::BuildUriError),
        }
    }

    /// The signature of the queries, the custom headers and `sw_headers`,
    /// under the client's secret and algorithm.
    pub fn sign(&self, sw_headers: &KvPairs, config: &SeewoClient) -> (r: String)
        ensures
            r@ == signature(
                config.app_secret@,
                config.sign_type,
                pairs_view(self.queries@) + pairs_view(self.headers@) + pairs_view(sw_headers@),
            ),
            r@.len() == 32,
    {
        let mut params: KvPairs = Vec::new();
        assert(pairs_view(params@) =~= Seq::<PairView>::empty());
        extend_pairs(&mut params, &self.queries);
        extend_pairs(&mut params, &self.headers);
        extend_pairs(&mut params, sw_headers);
        assert(pairs_view(params@) =~= pairs_view(self.queries@) + pairs_view(self.headers@) + pairs_view(sw_headers@));
        sign_params(&params, config.app_secret.as_str(), config.sign_type)
    }

    /// The protocol headers of this request at the given time, the
    /// signature last.
    pub fn build_sw_headers(&self, config: &SeewoClient, now_millis: u128) -> (r: Result<KvPairs, SeewoError>)
        ensures
            match resolved_path(*self) {
                Some(p) => r matches Ok(h) && pairs_view(h@) == protocol_headers(*self, *config, p, now_millis as nat),
                None => r == Err::<KvPairs, SeewoError>(SeewoError::BuildUriError),
            },
    {
        match self.get_uri() {
            Ok(uri) => Ok(self.sw_headers_for_path(config, uri, now_millis)),
            Err(e) => Err(e),
        }
    }

    /// The protocol headers of this request for an already resolved path at
    /// the given time, the signature last.
    pub fn sw_headers_for_path(&self, config: &SeewoClient, uri: String, now_millis: u128) -> (r: KvPairs)
        ensures
            pairs_view(r@) == protocol_headers(*self, *config, uri@, now_millis as nat),
    {
        let ghost p = uri@;
        let mut sw: KvPairs = Vec::new();
        sw.push(("x-sw-app-id".to_owned(), config.app_id.clone()));
        sw.push(("x-sw-req-path".to_owned(), uri));
        sw.push(("x-sw-version".to_owned(), "2".to_owned()));
        sw.push(("x-sw-timestamp".to_owned(), decimal_string(now_millis)));
        let ghost base = pairs_view(sw@);
        assert(base =~= seq![
            ("x-sw-app-id"@, config.app_id@),
            ("x-sw-req-path"@, p),
            ("x-sw-version"@, "2"@),
            ("x-sw-timestamp"@, decimal(now_millis as nat)),
        ]);
        let ghost names = keys_of(pairs_view(self.headers@));
        if self.headers.len() > 0 {
            let joined = join_keys(&self.headers);
            sw.push(("x-sw-sign-headers".to_owned(), joined));
            assert(pairs_view(sw@) =~= base.push(("x-sw-sign-headers"@, join_comma(names))));
        }
        let ghost with_names = pairs_view(sw@);
        sw.push(("x-sw-sign-type".to_owned(), config.sign_type.as_str().to_owned()));
        assert(pairs_view(sw@) =~= with_names.push(("x-sw-sign-type"@, config.sign_type.name())));
        let ghost with_type = pairs_view(sw@);
        match &self.body {
            Some(body) => {
                let digest = md5_upper_hex(body.as_slice());
                sw.push(("x-sw-content-md5".to_owned(), digest));
                assert(pairs_view(sw@) =~= with_type.push(("x-sw-content-md5"@, upper_hex(md5_of(body@)))));
            },
            None => {},
        }
        assert(pairs_view(sw@) == unsigned_headers(*self, *config, p, now_millis as nat));
        let sign = self.sign(&sw, config);
        let ghost unsigned = pairs_view(sw@);
        sw.push(("x-sw-sign".to_owned(), sign));
        assert(pairs_view(sw@) =~= unsigned.push(("x-sw-sign"@, sign@)));
        sw
    }

    /// The transport-ready form of this request at the given time: the URL
    /// with its query, the merged headers, the body and the timeout.
    pub fn build_request(&self, config: &SeewoClient, now_millis: u128) -> (r: Result<PreparedRequest, SeewoError>)
        ensures
            match resolved_path(*self) {
                None => r == Err::<PreparedRequest, SeewoError>(SeewoError::BuildUriError),
                Some(p) => {
                    let merged = merge_headers(
                        pairs_view(self.headers@),
                        protocol_headers(*self, *config, p, now_millis as nat),
                    );
                    let q = pairs_view(self.queries@);
                    if !all_headers_ok(merged) {
                        r matches Err(e) && reports_first_bad_header(e, merged)
                    } else if !url_parse_ok(config.stage.host() + p) {
                        r == Err::<PreparedRequest, SeewoError>(SeewoError::BuildUri2Error)
                    } else {
                        r matches Ok(d) && {
                            &&& pairs_view(d.headers@) == merged
                            &&& url_query_pairs(d.url).len() >= q.len()
                            &&& url_query_pairs(d.url).subrange(
                                url_query_pairs(d.url).len() - q.len(),
                                url_query_pairs(d.url).len() as int,
                            ) == q
                            &&& body_view(d.body) == body_view(self.body)
                            &&& d.timeout_secs == REQUEST_TIMEOUT_SECS
                        }
                    }
                },
            },
    {
        let sw = match self.build_sw_headers(config, now_millis) {
            Ok(h) => h,
            Err(e) => return Err(e),
        };
        let headers = merge_header_pairs(&self.headers, &sw);
        match check_headers(&headers) {
            Ok(_) => {},
            Err(e) => return Err(e),
        }
        let uri = match self.get_uri() {
            Ok(u) => u,
            Err(e) => return Err(e),
        };
        let mut full = config.get_host().to_owned();
        full.append(uri.as_str());
        let mut url = match parse_url(full.as_str()) {
            Ok(u) => u,
            Err(_) => return Err(SeewoError::BuildUri2Error),
        };
        let ghost start = url_query_pairs(url);
        let ghost q = pairs_view(self.queries@);
        let mut i: usize = 0;
        assert(start + q.take(0) =~= start);
        while i < self.queries.len()
            invariant
                i <= self.queries@.len(),
                q == pairs_view(self.queries@),
                url_query_pairs(url) == start + q.take(i as int),
            decreases self.queries@.len() - i,
        {
            append_query_pair(&mut url, self.queries[i].0.as_str(), self.queries[i].1.as_str());
            assert(start + q.take(i + 1) =~= (start + q.take(i as int)).push(q[i as int]));
            i = i + 1;
        }
        assert(q.take(self.queries@.len() as int) =~= q);
        assert((start + q).subrange(start.len() as int, (start + q).len() as int) =~= q);
        let body = match &self.body {
            Some(b) => {
                let c = b.clone();
                assert(c@ =~= b@);
                Some(c)
            },
            None => None,
        };
        Ok(PreparedRequest { url, headers, body, timeout_secs: REQUEST_TIMEOUT_SECS })
    }
}

/// The header that lists the custom header names is there exactly when the
/// request has custom headers; it then holds their names, comma-joined, in
/// the request's order.
pub proof fn lemma_sign_headers_entry(req: SeewoRequest, config: SeewoClient, path: Seq<char>, now_millis: nat)
    ensures
        req.headers@.len() == 0 ==> !has_key(protocol_headers(req, config, path, now_millis), "x-sw-sign-headers"@),
        req.headers@.len() > 0 ==> protocol_headers(req, config, path, now_millis)[4] == (
            "x-sw-sign-headers"@,
            join_comma(keys_of(pairs_view(req.headers@))),
        ),
{
    reveal_strlit("x-sw-app-id");
    reveal_strlit("x-sw-req-path");
    reveal_strlit("x-sw-version");
    reveal_strlit("x-sw-timestamp");
    reveal_strlit("x-sw-sign-headers");
    reveal_strlit("x-sw-sign-type");
    reveal_strlit("x-sw-content-md5");
    reveal_strlit("x-sw-sign");
    let ph = protocol_headers(req, config, path, now_millis);
    if req.headers@.len() == 0 {
        assert(keys_of(pairs_view(req.headers@)).len() == 0);
        assert forall|i: int| 0 <= i < ph.len() implies #[trigger] ph[i].0 != "x-sw-sign-headers"@ by {
            assert(ph[i].0.len() != 17);
        }
    }
}

/// The protocol headers, signature included, depend on the requests' and
/// clients' contents alone: equal contents give equal headers.
pub proof fn lemma_protocol_headers_deterministic(
    r1: SeewoRequest,
    r2: SeewoRequest,
    c1: SeewoClient,
    c2: SeewoClient,
    path: Seq<char>,
    now_millis: nat,
)
    requires
        pairs_view(r1.queries@) == pairs_view(r2.queries@),
        pairs_view(r1.headers@) == pairs_view(r2.headers@),
        body_view(r1.body) == body_view(r2.body),
        c1.app_id@ == c2.app_id@,
        c1.app_secret@ == c2.app_secret@,
        c1.sign_type == c2.sign_type,
    ensures
        protocol_headers(r1, c1, path, now_millis) == protocol_headers(r2, c2, path, now_millis),
{
    assert(unsigned_headers(r1, c1, path, now_millis) == unsigned_headers(r2, c2, path, now_millis));
}

} // verus!
