//! Requests to the core's control interface.
use std::collections::BTreeMap;
use vstd::prelude::*;
use vstd::string::*;
use vstd::utf8::{encode_utf8, encode_utf8_decode_utf8};

use crate::number::{decimal, decimal_text};
use crate::text::{
    copy_non_empty, copy_opt, from_chars, join2, join3, non_empty, opt_text, same_text, to_chars,
    trim, trimmed,
};

verus! {

/// How long to wait for a connection to the core, in milliseconds.
pub const CONNECT_TIMEOUT_MS: u64 = 3000;

/// The version that the core reports.
#[derive(Debug, Clone, Default, PartialEq, Eq)]
pub struct Version {
    pub meta: Option<bool>,
    pub version: Option<String>,
}

/// The bytes per second that pass through the core.
#[derive(Debug, Clone, Copy, Default, PartialEq, Eq, Structural)]
pub struct Traffic {
    pub up: u64,
    pub down: u64,
}

/// The settings that the core runs with.
#[derive(Debug, Clone, Default, PartialEq, Eq)]
pub struct RuntimeConfig {
    pub mode: String,
    pub mixed_port: Option<u16>,
}

/// The proxies that the core knows, by name.
#[derive(Debug, Clone, Default)]
pub struct ProxySnapshot {
    pub proxies: BTreeMap<String, ProxyEntry>,
}

/// A proxy or a group of proxies.
#[derive(Debug, Clone, Default)]
pub struct ProxyEntry {
    pub kind: String,
    pub now: String,
    pub all: Vec<String>,
    pub alive: bool,
    pub history: Vec<DelayHistory>,
}

/// A delay that was measured earlier.
#[derive(Debug, Clone, Default)]
pub struct DelayHistory {
    pub delay: u32,
}

/// A delay in milliseconds.
#[derive(Debug, Clone, Copy, Default, PartialEq, Eq, Structural)]
pub struct ProxyDelay {
    pub delay: u32,
}

/// How a request acts on its target.
#[derive(Debug, Clone, Copy, PartialEq, Eq, Structural)]
pub enum Method {
    Get,
    Put,
    Patch,
}

/// A name with a value: a field of a JSON object, or a parameter of a query.
#[derive(Debug, PartialEq, Eq)]
pub struct Field {
    pub name: String,
    pub value: String,
}

/// A request to the core.
#[derive(Debug, PartialEq, Eq)]
pub struct ApiRequest {
    pub method: Method,
    pub url: String,
    /// The token that is sent along for authorization.
    pub bearer: Option<String>,
    /// How long to wait for the answer.
    pub timeout_ms: u64,
    /// The only field of the JSON object that is sent along.
    pub json: Option<Field>,
    pub query: Vec<Field>,
}

/// The model of `Field`.
pub struct FieldView {
    pub name: Seq<char>,
    pub value: Seq<char>,
}

/// The model of `ApiRequest`.
#[verifier::ext_equal]
pub struct ApiRequestView {
    pub method: Method,
    pub url: Seq<char>,
    pub bearer: Option<Seq<char>>,
    pub timeout_ms: u64,
    pub json: Option<FieldView>,
    pub query: Seq<FieldView>,
}

impl View for Field {
    type V = FieldView;

    open spec fn view(&self) -> FieldView {
        FieldView { name: self.name@, value: self.value@ }
    }
}

impl View for ApiRequest {
    type V = ApiRequestView;

    open spec fn view(&self) -> ApiRequestView {
        ApiRequestView {
            method: self.method,
            url: self.url@,
            bearer: opt_text(self.bearer),
            timeout_ms: self.timeout_ms,
            json: match self.json {
                Some(field) => Some(field@),
                None => None,
            },
            query: self.query@.map_values(|field: Field| field@),
        }
    }
}

impl ApiRequestView {
    /// The request with a JSON object of one field.
    pub open spec fn with_json(self, name: Seq<char>, value: Seq<char>) -> ApiRequestView {
        ApiRequestView { json: Some(FieldView { name, value }), ..self }
    }
}

/// Why a request is not made or was not granted.
#[derive(Debug, PartialEq, Eq)]
pub enum ApiError {
    /// The core has no such mode.
    UnsupportedMode(String),
    /// The core answered a new configuration with the given status and text.
    Rejected { status: String, reason: String },
}

/// The model of `ApiError`.
pub enum ApiErrorView {
    UnsupportedMode(Seq<char>),
    Rejected { status: Seq<char>, reason: Seq<char> },
}

impl View for ApiError {
    type V = ApiErrorView;

    open spec fn view(&self) -> ApiErrorView {
        match *self {
            ApiError::UnsupportedMode(mode) => ApiErrorView::UnsupportedMode(mode@),
            ApiError::Rejected { status, reason } => ApiErrorView::Rejected {
                status: status@,
                reason: reason@,
            },
        }
    }
}

impl ApiErrorView {
    /// The error in words.
    pub open spec fn text(self) -> Seq<char> {
        match self {
            ApiErrorView::UnsupportedMode(mode) => "Unsupported Mihomo mode: "@ + mode,
            ApiErrorView::Rejected { status, reason } => "Mihomo rejected the configuration ("@
                + status + "): "@ + reason,
        }
    }
}

impl ApiError {
    /// The error in words.
    pub fn message(&self) -> (text: String)
        ensures
            text@ == self@.text(),
    {
        match self {
            ApiError::UnsupportedMode(mode) => join2("Unsupported Mihomo mode: ", mode.as_str()),
            ApiError::Rejected { status, reason } => join3(
                "Mihomo rejected the configuration (",
                status.as_str(),
                "): ",
            ).concat(reason.as_str()),
        }
    }
}

/// The core's control interface: where it listens, and its secret.
#[derive(Debug, PartialEq, Eq)]
pub struct ClashApi {
    base_url: String,
    secret: Option<String>,
}

/// The model of `ClashApi`.
pub struct ClashApiView {
    pub base_url: Seq<char>,
    pub secret: Option<Seq<char>>,
}

impl View for ClashApi {
    type V = ClashApiView;

    closed spec fn view(&self) -> ClashApiView {
        ClashApiView { base_url: self.base_url@, secret: opt_text(self.secret) }
    }
}

/// A text without the slashes at its end.
pub open spec fn without_end_slashes(text: Seq<char>) -> Seq<char>
    decreases text.len(),
{
    if text.len() > 0 && text.last() == '/' {
        without_end_slashes(text.drop_last())
    } else {
        text
    }
}

/// The modes that the core can work in.
pub open spec fn is_mode(mode: Seq<char>) -> bool {
    mode == "rule"@ || mode == "global"@ || mode == "direct"@
}

impl ClashApiView {
    /// The interface at the given address: slashes at its end and an empty
    /// secret are dropped.
    pub open spec fn at(base_url: Seq<char>, secret: Option<Seq<char>>) -> ClashApiView {
        ClashApiView {
            base_url: without_end_slashes(base_url),
            secret: match secret {
                Some(value) => non_empty(value),
                None => None,
            },
        }
    }

    /// A request to the given path below the address, with the secret as
    /// token.
    pub open spec fn request(
        self,
        method: Method,
        path: Seq<char>,
        timeout_ms: u64,
    ) -> ApiRequestView {
        ApiRequestView {
            method,
            url: self.base_url + path,
            bearer: self.secret,
            timeout_ms,
            json: None,
            query: Seq::empty(),
        }
    }
}

impl Clone for ClashApi {
    fn clone(&self) -> (copy: Self)
        ensures
            copy@ == self@,
    {
        ClashApi { base_url: self.base_url.as_str().to_owned(), secret: copy_opt(&self.secret) }
    }
}

impl ClashApi {
    /// The interface at the given address. Slashes at the end of the address
    /// are dropped, and so is an empty secret.
    pub fn new(base_url: String, secret: Option<String>) -> (api: ClashApi)
        ensures
            api@ == ClashApiView::at(base_url@, opt_text(secret)),
    {
        let chars = to_chars(base_url.as_str());
        let mut end = chars.len();
        assert(chars@.take(end as int) =~= chars@);
        while end > 0 && chars[end - 1] == '/'
            invariant
                end <= chars@.len(),
                without_end_slashes(chars@.take(end as int)) == without_end_slashes(chars@),
            decreases end,
        {
            assert(chars@.take(end as int).drop_last() =~= chars@.take(end - 1));
            end -= 1;
        }
        let trimmed_url = from_chars(&chars, 0, end);
        assert(trimmed_url@ =~= chars@.take(end as int));
        let kept = match &secret {
            Some(value) => copy_non_empty(value.as_str()),
            None => None,
        };
        ClashApi { base_url: trimmed_url, secret: kept }
    }

    /// A request to the given path below the address, with the secret as
    /// token.
    pub fn build_request(&self, method: Method, path: &str, timeout_ms: u64) -> (request:
        ApiRequest)
        ensures
            request@ == self@.request(method, path@, timeout_ms),
    {
        let request = ApiRequest {
            method,
            url: join2(self.base_url.as_str(), path),
            bearer: copy_opt(&self.secret),
            timeout_ms,
            json: None,
            query: Vec::new(),
        };
        assert(request@ =~= self@.request(method, path@, timeout_ms));
        request
    }

    /// Asks for the core's version.
    pub fn version(&self) -> (request: ApiRequest)
        ensures
            request@ == self@.request(Method::Get, "/version"@, 5000),
    {
        self.build_request(Method::Get, "/version", 5000)
    }

    /// Has the core read the configuration file at the given path.
    pub fn reload_config(&self, path: &str) -> (request: ApiRequest)
        ensures
            request@ == self@.request(Method::Put, "/configs"@, 10000).with_json("path"@, path@),
    {
        let mut request = self.build_request(Method::Put, "/configs", 10000);
        request.json = Some(Field { name: "path".to_owned(), value: path.to_owned() });
        request
    }

    /// Asks for the settings that the core runs with.
    pub fn runtime_config(&self) -> (request: ApiRequest)
        ensures
            request@ == self@.request(Method::Get, "/configs"@, 5000),
    {
        self.build_request(Method::Get, "/configs", 5000)
    }

    /// Has the core work in the given mode. A mode that it does not have is
    /// refused without a request.
    pub fn set_mode(&self, mode: &str) -> (request: Result<ApiRequest, ApiError>)
        ensures
            request is Ok <==> is_mode(mode@),
            request matches Ok(r) ==> r@ == self@.request(
                Method::Patch,
                "/configs"@,
                5000,
            ).with_json("mode"@, mode@),
            request matches Err(e) ==> e@ == ApiErrorView::UnsupportedMode(mode@),
    {
        if !(same_text(mode, "rule") || same_text(mode, "global") || same_text(mode, "direct")) {
            return Err(ApiError::UnsupportedMode(mode.to_owned()));
        }
        let mut request = self.build_request(Method::Patch, "/configs", 5000);
        request.json = Some(Field { name: "mode".to_owned(), value: mode.to_owned() });
        Ok(request)
    }

    /// Asks for the proxies that the core knows.
    pub fn proxies(&self) -> (request: ApiRequest)
        ensures
            request@ == self@.request(Method::Get, "/proxies"@, 10000),
    {
        self.build_request(Method::Get, "/proxies", 10000)
    }

    /// Has a group use the given proxy.
    pub fn select_proxy(&self, group: &str, proxy: &str) -> (request: ApiRequest)
        ensures
            request@ == self@.request(
                Method::Put,
                "/proxies/"@ + encoded(encode_utf8(group@)),
                5000,
            ).with_json("name"@, proxy@),
    {
        let path = join2("/proxies/", encode_path_segment(group).as_str());
        let mut request = self.build_request(Method::Put, path.as_str(), 5000);
        request.json = Some(Field { name: "name".to_owned(), value: proxy.to_owned() });
        request
    }

    /// Has the core measure the delay of a proxy to the given address. The
    /// core gives up after `timeout_ms`; the answer is awaited for two seconds
    /// more.
    pub fn proxy_delay(&self, proxy: &str, test_url: &str, timeout_ms: u32) -> (request:
        ApiRequest)
        ensures
            request@ == (ApiRequestView {
                query: seq![
                    FieldView { name: "url"@, value: test_url@ },
                    FieldView { name: "timeout"@, value: decimal(timeout_ms as nat) },
                ],
                ..self@.request(
                    Method::Get,
                    "/proxies/"@ + encoded(encode_utf8(proxy@)) + "/delay"@,
                    (timeout_ms + 2000) as u64,
                )
            }),
    {
        let path = join3("/proxies/", encode_path_segment(proxy).as_str(), "/delay");
        let mut request = self.build_request(
            Method::Get,
            path.as_str(),
            timeout_ms as u64 + 2000,
        );
        assert(request.query@.len() == request@.query.len());
        request.query.push(Field { name: "url".to_owned(), value: test_url.to_owned() });
        request.query.push(
            Field { name: "timeout".to_owned(), value: decimal_text(timeout_ms as u128) },
        );
        assert(request@.query =~= seq![
            FieldView { name: "url"@, value: test_url@ },
            FieldView { name: "timeout"@, value: decimal(timeout_ms as nat) },
        ]);
        request
    }

    /// Asks for the stream of traffic samples.
    pub fn traffic_sample(&self) -> (request: ApiRequest)
        ensures
            request@ == self@.request(Method::Get, "/traffic"@, 5000),
    {
        self.build_request(Method::Get, "/traffic", 5000)
    }
}

/// What the core's answer to a new configuration means: statuses from 200 to
/// 299 grant it. `status_text` is the status in words, `text` the body of the
/// answer.
pub fn reload_outcome(status: u16, status_text: &str, text: &str) -> (outcome: Result<
    (),
    ApiError,
>)
    ensures
        outcome is Ok <==> 200 <= status <= 299,
        outcome matches Err(e) ==> e@ == (ApiErrorView::Rejected {
            status: status_text@,
            reason: trimmed(text@),
        }),
{
    if 200 <= status && status <= 299 {
        Ok(())
    } else {
        Err(ApiError::Rejected { status: status_text.to_owned(), reason: trim(text) })
    }
}

// Path segments.

/// Whether a byte stands for itself in a path segment.
pub open spec fn is_unreserved(byte: u8) -> bool {
    ||| 48 <= byte <= 57
    ||| 65 <= byte <= 90
    ||| 97 <= byte <= 122
    ||| byte == 45
    ||| byte == 46
    ||| byte == 95
    ||| byte == 126
}

/// The hexadecimal digit of a value below sixteen, in capitals.
pub open spec fn hex_digit(value: u8) -> char {
    if value < 10 {
        (48 + value) as char
    } else {
        (55 + value) as char
    }
}

/// A byte in a path segment: itself, or a percent sign and its two
/// hexadecimal digits.
pub open spec fn encoded_byte(byte: u8) -> Seq<char> {
    if is_unreserved(byte) {
        seq![byte as char]
    } else {
        seq!['%', hex_digit(byte / 16), hex_digit(byte % 16)]
    }
}

/// Bytes in a path segment.
pub open spec fn encoded(bytes: Seq<u8>) -> Seq<char>
    decreases bytes.len(),
{
    if bytes.len() == 0 {
        Seq::empty()
    } else {
        encoded_byte(bytes[0]) + encoded(bytes.drop_first())
    }
}

fn hex(value: u8) -> (c: char)
    requires
        value < 16,
    ensures
        c == hex_digit(value),
{
    if value < 10 {
        (48 + value) as char
    } else {
        (55 + value) as char
    }
}

/// Writes a text as one segment of a URL's path: every byte of its UTF-8 form
/// that is not a letter, a digit, `-`, `.`, `_` or `~` becomes a percent sign
/// and two hexadecimal digits.
pub fn encode_path_segment(value: &str) -> (segment: String)
    ensures
        segment@ == encoded(encode_utf8(value@)),
{
    let bytes = value.as_bytes();
    let mut segment = String::new();
    assert(bytes@.skip(0) =~= bytes@);
    for i in 0..bytes.len()
        invariant
            segment@ + encoded(bytes@.skip(i as int)) == encoded(bytes@),
    {
        let byte = bytes[i];
        let ghost before = segment@;
        assert(bytes@.skip(i as int).drop_first() =~= bytes@.skip(i + 1));
        if (48 <= byte && byte <= 57) || (65 <= byte && byte <= 90) || (97 <= byte && byte <= 122)
            || byte == 45 || byte == 46 || byte == 95 || byte == 126 {
            segment.push(byte as char);
        } else {
            segment.push('%');
            segment.push(hex(byte / 16));
            segment.push(hex(byte % 16));
        }
        assert(segment@ =~= before + encoded_byte(byte));
        assert(segment@ + encoded(bytes@.skip(i + 1)) =~= before + encoded(
            bytes@.skip(i as int),
        ));
    }
    assert(segment@ + encoded(bytes@.skip(bytes@.len() as int)) =~= segment@);
    segment
}

/// The value of a hexadecimal digit.
pub open spec fn hex_value(c: char) -> u8 {
    if '0' <= c <= '9' {
        ((c as u32) - 48) as u8
    } else {
        ((c as u32) - 55) as u8
    }
}

/// The bytes that a path segment stands for.
pub open spec fn decoded(segment: Seq<char>) -> Seq<u8>
    decreases segment.len(),
{
    if segment.len() == 0 {
        Seq::empty()
    } else if segment[0] == '%' && segment.len() >= 3 {
        seq![(16 * hex_value(segment[1]) + hex_value(segment[2])) as u8] + decoded(segment.skip(3))
    } else {
        seq![segment[0] as u8] + decoded(segment.skip(1))
    }
}

proof fn encoded_byte_reads_back(byte: u8, rest: Seq<char>)
    ensures
        decoded(encoded_byte(byte) + rest) == seq![byte] + decoded(rest),
{
    let segment = encoded_byte(byte) + rest;
    if is_unreserved(byte) {
        assert(segment[0] == byte as char);
        assert(segment.skip(1) =~= rest);
    } else {
        assert(segment[0] == '%');
        assert(segment[1] == hex_digit(byte / 16));
        assert(segment[2] == hex_digit(byte % 16));
        assert(segment.skip(3) =~= rest);
        assert(hex_value(hex_digit(byte / 16)) == byte / 16);
        assert(hex_value(hex_digit(byte % 16)) == byte % 16);
        assert(16 * (byte / 16) + byte % 16 == byte);
    }
}

/// Decoding a path segment gives back the bytes that were encoded.
pub proof fn segments_read_back(bytes: Seq<u8>)
    ensures
        decoded(encoded(bytes)) == bytes,
    decreases bytes.len(),
{
    if bytes.len() > 0 {
        segments_read_back(bytes.drop_first());
        encoded_byte_reads_back(bytes[0], encoded(bytes.drop_first()));
        assert(seq![bytes[0]] + bytes.drop_first() =~= bytes);
    } else {
        assert(decoded(encoded(bytes)) =~= bytes);
    }
}

/// Different texts become different path segments.
pub proof fn segments_tell_texts_apart(a: Seq<char>, b: Seq<char>)
    requires
        encoded(encode_utf8(a)) == encoded(encode_utf8(b)),
    ensures
        a == b,
{
    segments_read_back(encode_utf8(a));
    segments_read_back(encode_utf8(b));
    encode_utf8_decode_utf8(a);
    encode_utf8_decode_utf8(b);
}

/// An encoded text is a single segment: it holds only letters, digits, `-`,
/// `.`, `_`, `~` and percent signs, so no character that ends a segment, a
/// path or a query.
pub proof fn segments_are_single(bytes: Seq<u8>)
    ensures
        forall|i: int|
            0 <= i < encoded(bytes).len() ==> {
                let c = #[trigger] encoded(bytes)[i];
                c == '%' || (c as u32 <= 126 && is_unreserved(c as u8))
            },
    decreases bytes.len(),
{
    if bytes.len() > 0 {
        segments_are_single(bytes.drop_first());
        let first = encoded_byte(bytes[0]);
        let rest = encoded(bytes.drop_first());
        assert forall|i: int| 0 <= i < encoded(bytes).len() implies {
            let c = #[trigger] encoded(bytes)[i];
            c == '%' || (c as u32 <= 126 && is_unreserved(c as u8))
        } by {
            if i < first.len() {
                assert(encoded(bytes)[i] == first[i]);
            } else {
                assert(encoded(bytes)[i] == rest[i - first.len()]);
            }
        }
    }
}

/// However an address is written, requests to it have exactly one slash
/// between the address and the path: the address has none left at its end.
pub proof fn addresses_have_no_end_slash(base_url: Seq<char>, secret: Option<Seq<char>>)
    ensures
        ({
            let kept = ClashApiView::at(base_url, secret).base_url;
            &&& kept.len() > 0 ==> kept.last() != '/'
            &&& kept.len() <= base_url.len()
            &&& kept == base_url.take(kept.len() as int)
            &&& forall|i: int| kept.len() <= i < base_url.len() ==> base_url[i] == '/'
        }),
    decreases base_url.len(),
{
    if base_url.len() > 0 && base_url.last() == '/' {
        let front = base_url.drop_last();
        addresses_have_no_end_slash(front, secret);
        let kept = without_end_slashes(base_url);
        assert(kept =~= base_url.take(kept.len() as int));
        assert forall|i: int| kept.len() <= i < base_url.len() implies base_url[i] == '/' by {
            if i < front.len() {
                assert(front[i] == base_url[i]);
            }
        }
    } else {
        assert(base_url.take(base_url.len() as int) =~= base_url);
    }
}

// What a request carries.

/// A secret that is not empty is sent as it is, character by character, with
/// every request; without one, nothing is sent. The request goes to the path
/// behind the address.
pub proof fn secret_is_sent_as_it_is(
    base_url: Seq<char>,
    secret: Option<Seq<char>>,
    method: Method,
    path: Seq<char>,
    timeout_ms: u64,
)
    ensures
        ({
            let api = ClashApiView::at(base_url, secret);
            let request = api.request(method, path, timeout_ms);
            &&& secret matches Some(value) ==> (value.len() > 0 ==> request.bearer == Some(value))
            &&& secret matches Some(value) ==> (value.len() == 0 ==> request.bearer is None)
            &&& secret is None ==> request.bearer is None
            &&& base_url.len() > 0 && base_url.last() != '/' ==> request.url == base_url + path
        }),
{
}

/// A request acts as asked on the path behind the address, waits as long as
/// asked, and sends nothing along; with a JSON object, that is the only
/// difference.
pub proof fn request_holds_its_parts(
    api: ClashApiView,
    method: Method,
    path: Seq<char>,
    timeout_ms: u64,
    name: Seq<char>,
    value: Seq<char>,
)
    ensures
        ({
            let plain = api.request(method, path, timeout_ms);
            let with = plain.with_json(name, value);
            &&& plain.method == method && with.method == method
            &&& plain.url.len() == api.base_url.len() + path.len()
            &&& plain.url.take(api.base_url.len() as int) == api.base_url
            &&& plain.url.skip(api.base_url.len() as int) == path
            &&& with.url == plain.url
            &&& plain.bearer == api.secret && with.bearer == api.secret
            &&& plain.timeout_ms == timeout_ms && with.timeout_ms == timeout_ms
            &&& plain.json is None && plain.query.len() == 0 && with.query.len() == 0
            &&& with.json matches Some(field) && field.name == name && field.value == value
        }),
{
    let plain = api.request(method, path, timeout_ms);
    assert(plain.url.take(api.base_url.len() as int) =~= api.base_url);
    assert(plain.url.skip(api.base_url.len() as int) =~= path);
}

/// The model of a request holds what the request does.
pub proof fn request_model_is_faithful(request: ApiRequest)
    ensures
        request@.method == request.method,
        request@.url == request.url@,
        request@.timeout_ms == request.timeout_ms,
        request@.bearer is Some <==> request.bearer is Some,
        request.bearer matches Some(token) ==> request@.bearer == Some(token@),
        request@.json is Some <==> request.json is Some,
        request.json matches Some(field) ==> request@.json->0.name == field.name@
            && request@.json->0.value == field.value@,
        request@.query.len() == request.query@.len(),
        forall|i: int|
            0 <= i < request.query@.len() ==> (#[trigger] request@.query[i]).name
                == request.query@[i].name@ && request@.query[i].value == request.query@[i].value@,
{
}

/// The core has three modes and no other, whatever the letter case.
pub proof fn modes_are_three(mode: Seq<char>)
    ensures
        is_mode("rule"@) && is_mode("global"@) && is_mode("direct"@),
        mode != "rule"@ && mode != "global"@ && mode != "direct"@ ==> !is_mode(mode),
{
}

/// Letters, digits and the four marks `-`, `.`, `_` and `~` stand for
/// themselves in a segment; any other byte becomes a percent sign and its two
/// hexadecimal digits in capitals. A segment is written byte by byte.
pub proof fn segments_are_written_byte_by_byte(byte: u8, a: Seq<u8>, b: Seq<u8>)
    ensures
        encoded(a + b) == encoded(a) + encoded(b),
        ({
            let c = byte as char;
            if 'A' <= c <= 'Z' || 'a' <= c <= 'z' || '0' <= c <= '9' || c == '-' || c == '.' || c
                == '_' || c == '~' {
                encoded(seq![byte]) == seq![c]
            } else {
                encoded(seq![byte]) == seq![
                    '%',
                    "0123456789ABCDEF"@[byte as int / 16],
                    "0123456789ABCDEF"@[byte as int % 16],
                ]
            }
        }),
    decreases a.len(),
{
    reveal_strlit("0123456789ABCDEF");
    assert(seq![byte].drop_first() =~= Seq::empty());
    assert(encoded(Seq::empty()) =~= Seq::empty());
    assert(encoded(seq![byte]) =~= encoded_byte(byte));
    if a.len() > 0 {
        segments_are_written_byte_by_byte(byte, a.drop_first(), b);
        assert((a + b).drop_first() =~= a.drop_first() + b);
        assert(encoded(a + b) =~= encoded(a) + encoded(b));
    } else {
        assert(a + b =~= b);
        assert(encoded(a) + encoded(b) =~= encoded(b));
    }
}

/// What is wrong is told with its cause: the mode that the core does not have,
/// or the status and the text of its answer.
pub proof fn api_errors_name_their_cause(mode: Seq<char>, status: Seq<char>, reason: Seq<char>)
    ensures
        ApiErrorView::UnsupportedMode(mode).text() == "Unsupported Mihomo mode: "@ + mode,
        (ApiErrorView::Rejected { status, reason }).text()
            == "Mihomo rejected the configuration ("@ + status + "): "@ + reason,
{
}

/// The model of an error holds what the error does.
pub proof fn api_error_model_is_faithful(error: ApiError)
    ensures
        error matches ApiError::UnsupportedMode(mode) ==> error@
            == ApiErrorView::UnsupportedMode(mode@),
        error matches ApiError::Rejected { status, reason } ==> error@ == (ApiErrorView::Rejected {
            status: status@,
            reason: reason@,
        }),
{
}

} // verus!
