//! The session client: configuration, bootstrap, request construction and
//! response decoding.
//!
//! A [`ClientBuilder`] carries the configuration; [`ClientBuilder::build_from_page`]
//! scrapes the session token out of the landing page and yields a [`Client`].
//! Each call of the service is described by an [`ApiRequest`] — method, URL,
//! query, form fields and headers as plain data — built here with an exact
//! contract; the transport that performs it and the decoding of what comes
//! back close the loop.

use vstd::prelude::*;
use vstd::string::*;
use crate::error::Error;
use crate::json::get_str_field;
use crate::json::json_of;
use crate::json::parse_json;
use crate::json::str_field;
use crate::model::EmailDetails;
use crate::model::Message;
use crate::model::details_from_json;
use crate::model::messages_from_json;
use crate::model::msg_views;
use crate::model::spec_details_of;
use crate::model::spec_messages_of;
use crate::text::alias_of;
use crate::text::dec_seq;
use crate::text::extract_alias;
use crate::text::lemma_dec_seq_injective;
use crate::text::u64_to_dec;
use crate::token::extract_token;
use crate::token::leftmost_token;
use crate::token::page_has_token;

verus! {

/// The default user-agent string presented to the service.
pub open spec fn spec_default_user_agent() -> Seq<char> {
    "Mozilla/5.0 (Windows NT 10.0; Win64; x64; rv:131.0) Gecko/20100101 Firefox/131.0"@
}

/// The default AJAX endpoint of the service.
pub open spec fn spec_default_ajax_url() -> Seq<char> {
    "https://www.guerrillamail.com/ajax.php"@
}

/// The landing page fetched once to bootstrap a session.
pub fn landing_url() -> (r: String)
    ensures
        r@ == "https://www.guerrillamail.com"@,
{
    "https://www.guerrillamail.com".to_owned()
}

/// Configuration of a session, set once before bootstrap.
#[derive(Debug, Clone)]
pub struct ClientBuilder {
    pub proxy: Option<String>,
    pub danger_accept_invalid_certs: bool,
    pub user_agent: String,
    pub ajax_url: String,
}

/// Mathematical image of a [`ClientBuilder`].
#[verifier::ext_equal]
pub struct ClientBuilderView {
    pub proxy: Option<Seq<char>>,
    pub danger_accept_invalid_certs: bool,
    pub user_agent: Seq<char>,
    pub ajax_url: Seq<char>,
}

impl View for ClientBuilder {
    type V = ClientBuilderView;

    open spec fn view(&self) -> ClientBuilderView {
        ClientBuilderView {
            proxy: match self.proxy {
                Some(p) => Some(p@),
                None => None,
            },
            danger_accept_invalid_certs: self.danger_accept_invalid_certs,
            user_agent: self.user_agent@,
            ajax_url: self.ajax_url@,
        }
    }
}

/// A bootstrapped session: the scraped token and the configuration that
/// every later call repeats. Immutable once constructed.
#[derive(Debug, Clone)]
pub struct Client {
    pub api_token: String,
    pub proxy: Option<String>,
    pub user_agent: String,
    pub ajax_url: String,
}

/// Mathematical image of a [`Client`].
#[verifier::ext_equal]
pub struct ClientView {
    pub api_token: Seq<char>,
    pub proxy: Option<Seq<char>>,
    pub user_agent: Seq<char>,
    pub ajax_url: Seq<char>,
}

impl View for Client {
    type V = ClientView;

    open spec fn view(&self) -> ClientView {
        ClientView {
            api_token: self.api_token@,
            proxy: match self.proxy {
                Some(p) => Some(p@),
                None => None,
            },
            user_agent: self.user_agent@,
            ajax_url: self.ajax_url@,
        }
    }
}

/// The builder configuration every session starts from.
pub open spec fn spec_default_builder() -> ClientBuilderView {
    ClientBuilderView {
        proxy: None,
        danger_accept_invalid_certs: true,
        user_agent: spec_default_user_agent(),
        ajax_url: spec_default_ajax_url(),
    }
}

/// What bootstrap yields: a session carrying the leftmost scraped token and
/// the builder's configuration, or the token-parse error on a page without
/// the pattern.
pub open spec fn build_post(b: ClientBuilderView, page: Seq<char>, r: Result<Client, Error>) -> bool {
    match r {
        Ok(c) => (exists|i: int| leftmost_token(page, i, c@.api_token)) && c@.proxy == b.proxy
            && c@.user_agent == b.user_agent && c@.ajax_url == b.ajax_url,
        Err(e) => e == Error::TokenParse && !page_has_token(page),
    }
}

impl ClientBuilder {
    /// A builder with the defaults: no proxy, lenient TLS validation, the
    /// default user agent and the default AJAX endpoint.
    pub fn new() -> (r: ClientBuilder)
        ensures
            r@ == spec_default_builder(),
    {
        let r = ClientBuilder {
            proxy: None,
            danger_accept_invalid_certs: true,
            user_agent: "Mozilla/5.0 (Windows NT 10.0; Win64; x64; rv:131.0) Gecko/20100101 Firefox/131.0".to_owned(),
            ajax_url: "https://www.guerrillamail.com/ajax.php".to_owned(),
        };
        proof {
            assert(r@ =~= spec_default_builder());
        }
        r
    }

    /// Route every request of the session through the given proxy.
    pub fn proxy(self, proxy: String) -> (r: ClientBuilder)
        ensures
            r@ == (ClientBuilderView { proxy: Some(proxy@), ..self@ }),
    {
        let r = ClientBuilder { proxy: Some(proxy), ..self };
        proof {
            assert(r@ =~= (ClientBuilderView { proxy: r@.proxy, ..self@ }));
        }
        r
    }

    /// Accept invalid TLS certificates when `value` is true (the default);
    /// set false for strict validation.
    pub fn danger_accept_invalid_certs(self, value: bool) -> (r: ClientBuilder)
        ensures
            r@ == (ClientBuilderView { danger_accept_invalid_certs: value, ..self@ }),
    {
        let r = ClientBuilder { danger_accept_invalid_certs: value, ..self };
        proof {
            assert(r@ =~= (ClientBuilderView { danger_accept_invalid_certs: value, ..self@ }));
        }
        r
    }

    /// Present the given user-agent string instead of the default.
    pub fn user_agent(self, user_agent: String) -> (r: ClientBuilder)
        ensures
            r@ == (ClientBuilderView { user_agent: user_agent@, ..self@ }),
    {
        let r = ClientBuilder { user_agent, ..self };
        proof {
            assert(r@ =~= (ClientBuilderView { user_agent: r@.user_agent, ..self@ }));
        }
        r
    }

    /// Send every call of the session to the given endpoint instead of the
    /// default one.
    pub fn ajax_url(self, ajax_url: String) -> (r: ClientBuilder)
        ensures
            r@ == (ClientBuilderView { ajax_url: ajax_url@, ..self@ }),
    {
        let r = ClientBuilder { ajax_url, ..self };
        proof {
            assert(r@ =~= (ClientBuilderView { ajax_url: r@.ajax_url, ..self@ }));
        }
        r
    }

    /// Scrape the session token out of the fetched landing page and bind it
    /// to this configuration; fail with the token-parse error when the page
    /// lacks the pattern.
    pub fn build_from_page(self, page: &str) -> (r: Result<Client, Error>)
        ensures
            build_post(self@, page@, r),
    {
        let b = self;
        match extract_token(page) {
            Ok(t) => {
                let ghost i0 = choose|i: int| leftmost_token(page@, i, t@);
                let c = Client {
                    api_token: t,
                    proxy: b.proxy,
                    user_agent: b.user_agent,
                    ajax_url: b.ajax_url,
                };
                proof {
                    assert(leftmost_token(page@, i0, c@.api_token));
                    assert(exists|i: int| leftmost_token(page@, i, c@.api_token));
                    let ghost rr = Result::<Client, Error>::Ok(c);
                    assert(rr->Ok_0 == c);
                    assert(build_post(b@, page@, rr));
                }
                Ok(c)
            },
            Err(e) => Err(e),
        }
    }
}

impl Client {
    /// A builder with the default configuration.
    pub fn builder() -> (r: ClientBuilder)
        ensures
            r@ == spec_default_builder(),
    {
        ClientBuilder::new()
    }

    /// The proxy this session routes through, if one was configured.
    pub fn proxy(&self) -> (r: Option<&str>)
        ensures
            match r {
                Some(p) => self@.proxy == Some(p@),
                None => self@.proxy is None,
            },
    {
        match &self.proxy {
            Some(p) => Some(p.as_str()),
            None => None,
        }
    }
}

/// The HTTP method of an [`ApiRequest`].
#[derive(Debug, Clone, Copy, PartialEq, Eq, Structural)]
pub enum HttpMethod {
    Get,
    Post,
}

/// One call of the service, described as plain data for a transport to
/// perform: no retry and no backoff are implied — one request per call.
#[derive(Debug, Clone)]
pub struct ApiRequest {
    pub method: HttpMethod,
    pub url: String,
    pub query: Vec<(String, String)>,
    pub form: Vec<(String, String)>,
    pub headers: Vec<(String, String)>,
}

/// The views of a sequence of name/value pairs, element by element.
pub open spec fn pair_views(s: Seq<(String, String)>) -> Seq<(Seq<char>, Seq<char>)> {
    s.map_values(|p: (String, String)| (p.0@, p.1@))
}

/// Mathematical image of an [`ApiRequest`].
#[verifier::ext_equal]
pub struct ApiRequestView {
    pub method: HttpMethod,
    pub url: Seq<char>,
    pub query: Seq<(Seq<char>, Seq<char>)>,
    pub form: Seq<(Seq<char>, Seq<char>)>,
    pub headers: Seq<(Seq<char>, Seq<char>)>,
}

impl View for ApiRequest {
    type V = ApiRequestView;

    open spec fn view(&self) -> ApiRequestView {
        ApiRequestView {
            method: self.method,
            url: self.url@,
            query: pair_views(self.query@),
            form: pair_views(self.form@),
            headers: pair_views(self.headers@),
        }
    }
}

/// The header set every call after bootstrap carries: a pinned host, the
/// configured user agent, a JSON-preferring accept header, a fixed locale,
/// the form content type (on POST calls only), the bearer-style
/// authorization embedding the session token, an AJAX marker, a pinned
/// origin/referer pair and fixed fetch-metadata headers.
pub open spec fn spec_headers(c: ClientView, with_content_type: bool) -> Seq<
    (Seq<char>, Seq<char>),
> {
    seq![
        ("Host"@, "www.guerrillamail.com"@),
        ("User-Agent"@, c.user_agent),
        ("Accept"@, "application/json, text/javascript, */*; q=0.01"@),
        ("Accept-Language"@, "en-US,en;q=0.5"@),
    ] + (if with_content_type {
        seq![("Content-Type"@, "application/x-www-form-urlencoded; charset=UTF-8"@)]
    } else {
        Seq::empty()
    }) + seq![
        ("Authorization"@, "ApiToken "@ + c.api_token),
        ("X-Requested-With"@, "XMLHttpRequest"@),
        ("Origin"@, "https://www.guerrillamail.com"@),
        ("Referer"@, "https://www.guerrillamail.com/"@),
        ("Sec-Fetch-Dest"@, "empty"@),
        ("Sec-Fetch-Mode"@, "cors"@),
        ("Sec-Fetch-Site"@, "same-origin"@),
        ("Priority"@, "u=0"@),
    ]
}

/// The mailbox-creating request: a form POST of the caller's alias with the
/// fixed site and locale fields.
pub open spec fn spec_create_email_request(c: ClientView, alias: Seq<char>) -> ApiRequestView {
    ApiRequestView {
        method: HttpMethod::Post,
        url: c.ajax_url,
        query: seq![("f"@, "set_email_user"@)],
        form: seq![
            ("email_user"@, alias),
            ("lang"@, "en"@),
            ("site"@, "guerrillamail.com"@),
            ("in"@, " Set cancel"@),
        ],
        headers: spec_headers(c, true),
    }
}

/// The inbox-listing request: a GET with the derived alias, the fixed
/// sequence parameter and the cache-busting timestamp.
pub open spec fn spec_check_email_request(c: ClientView, email: Seq<char>, now_ms: u64) -> ApiRequestView {
    ApiRequestView {
        method: HttpMethod::Get,
        url: c.ajax_url,
        query: seq![
            ("f"@, "check_email"@),
            ("seq"@, "1"@),
            ("in"@, alias_of(email)),
            ("_"@, dec_seq(now_ms as nat)),
        ],
        form: Seq::empty(),
        headers: spec_headers(c, false),
    }
}

/// The message-fetching request: a GET with the message identifier, the
/// derived alias and the cache-busting timestamp.
pub open spec fn spec_fetch_email_request(
    c: ClientView,
    email: Seq<char>,
    mail_id: Seq<char>,
    now_ms: u64,
) -> ApiRequestView {
    ApiRequestView {
        method: HttpMethod::Get,
        url: c.ajax_url,
        query: seq![
            ("f"@, "fetch_email"@),
            ("email_id"@, mail_id),
            ("in"@, alias_of(email)),
            ("_"@, dec_seq(now_ms as nat)),
        ],
        form: Seq::empty(),
        headers: spec_headers(c, false),
    }
}

/// The mailbox-forgetting request: a form POST of the derived alias with the
/// fixed site field.
pub open spec fn spec_delete_email_request(c: ClientView, email: Seq<char>) -> ApiRequestView {
    ApiRequestView {
        method: HttpMethod::Post,
        url: c.ajax_url,
        query: seq![("f"@, "forget_me"@)],
        form: seq![("site"@, "guerrillamail.com"@), ("in"@, alias_of(email))],
        headers: spec_headers(c, true),
    }
}

impl Client {
    fn request_headers(&self, with_content_type: bool) -> (r: Vec<(String, String)>)
        ensures
            pair_views(r@) == spec_headers(self@, with_content_type),
    {
        let mut h: Vec<(String, String)> = Vec::new();
        h.push(("Host".to_owned(), "www.guerrillamail.com".to_owned()));
        h.push(("User-Agent".to_owned(), self.user_agent.clone()));
        h.push(("Accept".to_owned(), "application/json, text/javascript, */*; q=0.01".to_owned()));
        h.push(("Accept-Language".to_owned(), "en-US,en;q=0.5".to_owned()));
        if with_content_type {
            h.push((
                "Content-Type".to_owned(),
                "application/x-www-form-urlencoded; charset=UTF-8".to_owned(),
            ));
        }
        let mut auth = "ApiToken ".to_owned();
        auth.append(self.api_token.as_str());
        h.push(("Authorization".to_owned(), auth));
        h.push(("X-Requested-With".to_owned(), "XMLHttpRequest".to_owned()));
        h.push(("Origin".to_owned(), "https://www.guerrillamail.com".to_owned()));
        h.push(("Referer".to_owned(), "https://www.guerrillamail.com/".to_owned()));
        h.push(("Sec-Fetch-Dest".to_owned(), "empty".to_owned()));
        h.push(("Sec-Fetch-Mode".to_owned(), "cors".to_owned()));
        h.push(("Sec-Fetch-Site".to_owned(), "same-origin".to_owned()));
        h.push(("Priority".to_owned(), "u=0".to_owned()));
        proof {
            assert(pair_views(h@) =~~= spec_headers(self@, with_content_type));
        }
        h
    }

    /// Build the mailbox-creating request for the caller's alias.
    pub fn create_email_request(&self, alias: &str) -> (r: ApiRequest)
        ensures
            r@ == spec_create_email_request(self@, alias@),
    {
        let mut query: Vec<(String, String)> = Vec::new();
        query.push(("f".to_owned(), "set_email_user".to_owned()));
        let mut form: Vec<(String, String)> = Vec::new();
        form.push(("email_user".to_owned(), alias.to_owned()));
        form.push(("lang".to_owned(), "en".to_owned()));
        form.push(("site".to_owned(), "guerrillamail.com".to_owned()));
        form.push(("in".to_owned(), " Set cancel".to_owned()));
        let r = ApiRequest {
            method: HttpMethod::Post,
            url: self.ajax_url.clone(),
            query,
            form,
            headers: self.request_headers(true),
        };
        proof {
            assert(r@ =~~= spec_create_email_request(self@, alias@));
        }
        r
    }

    /// Build the inbox-listing request for the mailbox of `email` at the
    /// given clock reading.
    pub fn check_email_request(&self, email: &str, now_ms: u64) -> (r: ApiRequest)
        ensures
            r@ == spec_check_email_request(self@, email@, now_ms),
    {
        let mut query: Vec<(String, String)> = Vec::new();
        query.push(("f".to_owned(), "check_email".to_owned()));
        query.push(("seq".to_owned(), "1".to_owned()));
        query.push(("in".to_owned(), extract_alias(email)));
        query.push(("_".to_owned(), u64_to_dec(now_ms)));
        let r = ApiRequest {
            method: HttpMethod::Get,
            url: self.ajax_url.clone(),
            query,
            form: Vec::new(),
            headers: self.request_headers(false),
        };
        proof {
            assert(r@ =~~= spec_check_email_request(self@, email@, now_ms));
        }
        r
    }

    /// Build the message-fetching request for `mail_id` in the mailbox of
    /// `email` at the given clock reading.
    pub fn fetch_email_request(&self, email: &str, mail_id: &str, now_ms: u64) -> (r: ApiRequest)
        ensures
            r@ == spec_fetch_email_request(self@, email@, mail_id@, now_ms),
    {
        let mut query: Vec<(String, String)> = Vec::new();
        query.push(("f".to_owned(), "fetch_email".to_owned()));
        query.push(("email_id".to_owned(), mail_id.to_owned()));
        query.push(("in".to_owned(), extract_alias(email)));
        query.push(("_".to_owned(), u64_to_dec(now_ms)));
        let r = ApiRequest {
            method: HttpMethod::Get,
            url: self.ajax_url.clone(),
            query,
            form: Vec::new(),
            headers: self.request_headers(false),
        };
        proof {
            assert(r@ =~~= spec_fetch_email_request(self@, email@, mail_id@, now_ms));
        }
        r
    }

    /// Build the mailbox-forgetting request for the mailbox of `email`.
    pub fn delete_email_request(&self, email: &str) -> (r: ApiRequest)
        ensures
            r@ == spec_delete_email_request(self@, email@),
    {
        let mut query: Vec<(String, String)> = Vec::new();
        query.push(("f".to_owned(), "forget_me".to_owned()));
        let mut form: Vec<(String, String)> = Vec::new();
        form.push(("site".to_owned(), "guerrillamail.com".to_owned()));
        form.push(("in".to_owned(), extract_alias(email)));
        let r = ApiRequest {
            method: HttpMethod::Post,
            url: self.ajax_url.clone(),
            query,
            form,
            headers: self.request_headers(true),
        };
        proof {
            assert(r@ =~~= spec_delete_email_request(self@, email@));
        }
        r
    }

    /// Build the inbox-listing request at the current clock reading.
    pub fn check_email_request_now(&self, email: &str) -> (r: ApiRequest)
        ensures
            exists|n: u64| r@ == spec_check_email_request(self@, email@, n),
    {
        let n = now_unix_millis();
        let r = self.check_email_request(email, n);
        proof {
            assert(r@ == spec_check_email_request(self@, email@, n));
            assert(exists|m: u64| r@ == spec_check_email_request(self@, email@, m));
        }
        r
    }

    /// Build the message-fetching request at the current clock reading.
    pub fn fetch_email_request_now(&self, email: &str, mail_id: &str) -> (r: ApiRequest)
        ensures
            exists|n: u64| r@ == spec_fetch_email_request(self@, email@, mail_id@, n),
    {
        let n = now_unix_millis();
        let r = self.fetch_email_request(email, mail_id, n);
        proof {
            assert(r@ == spec_fetch_email_request(self@, email@, mail_id@, n));
            assert(exists|m: u64| r@ == spec_fetch_email_request(self@, email@, mail_id@, m));
        }
        r
    }
}

/// Relies on `std::time::SystemTime::now` and
/// `std::time::SystemTime::duration_since`: milliseconds since the Unix
/// epoch, truncated to 64 bits; nothing is promised of the value.
#[verifier::external_body]
fn now_unix_millis() -> u64 {
    match std::time::SystemTime::now().duration_since(std::time::UNIX_EPOCH) {
        Ok(d) => d.as_millis() as u64,
        Err(_) => 0,
    }
}

/// Whether an HTTP status code is in the success range.
pub fn status_is_success(status: u16) -> (r: bool)
    ensures
        r == (200 <= status && status < 300),
{
    200 <= status && status < 300
}

/// What decoding a mailbox-creating response yields: the `email_addr` string
/// field verbatim, or the parse error when the body is not JSON or the field
/// is absent or not a string.
pub open spec fn decode_create_post(body: Seq<char>, r: Result<String, Error>) -> bool {
    match json_of(body) {
        Some(v) => match r {
            Ok(addr) => str_field(v, "email_addr"@) == Some(addr@),
            Err(e) => e == Error::ResponseParse && str_field(v, "email_addr"@) is None,
        },
        None => r == Err::<String, Error>(Error::ResponseParse),
    }
}

/// Decode the body of a mailbox-creating response.
pub fn decode_create_email_response(body: &str) -> (r: Result<String, Error>)
    ensures
        decode_create_post(body@, r),
{
    match parse_json(body) {
        Some(v) => match get_str_field(&v, "email_addr") {
            Some(addr) => Ok(addr),
            None => Err(Error::ResponseParse),
        },
        None => Err(Error::ResponseParse),
    }
}

/// What decoding an inbox-listing response yields: the well-formed entries
/// of its `list` array in order — malformed entries silently dropped, a
/// missing or non-array field an empty listing — or the parse error when
/// the body is not JSON.
pub open spec fn decode_messages_post(body: Seq<char>, r: Result<Vec<Message>, Error>) -> bool {
    match json_of(body) {
        Some(v) => match r {
            Ok(list) => msg_views(list@) == spec_messages_of(v),
            Err(e) => false,
        },
        None => r == Err::<Vec<Message>, Error>(Error::ResponseParse),
    }
}

/// Decode the body of an inbox-listing response.
pub fn decode_messages_response(body: &str) -> (r: Result<Vec<Message>, Error>)
    ensures
        decode_messages_post(body@, r),
{
    match parse_json(body) {
        Some(v) => Ok(messages_from_json(&v)),
        None => Err(Error::ResponseParse),
    }
}

/// What decoding a message-fetching response yields: the full message
/// detail, or the parse error when the body is not JSON or lacks the
/// expected shape — no entry of this call is dropped leniently.
pub open spec fn decode_fetch_post(body: Seq<char>, r: Result<EmailDetails, Error>) -> bool {
    match json_of(body) {
        Some(v) => match r {
            Ok(d) => spec_details_of(v) == Some(d@),
            Err(e) => e == Error::ResponseParse && spec_details_of(v) is None,
        },
        None => r == Err::<EmailDetails, Error>(Error::ResponseParse),
    }
}

/// Decode the body of a message-fetching response.
pub fn decode_fetch_email_response(body: &str) -> (r: Result<EmailDetails, Error>)
    ensures
        decode_fetch_post(body@, r),
{
    match parse_json(body) {
        Some(v) => match details_from_json(&v) {
            Some(d) => Ok(d),
            None => Err(Error::ResponseParse),
        },
        None => Err(Error::ResponseParse),
    }
}

/// The cache-busting timestamp is the last query parameter of every request
/// built after bootstrap, and two requests built at different clock
/// readings carry different values there.
pub proof fn lemma_timestamp_changes(c: ClientView, email: Seq<char>, mail_id: Seq<char>, n1: u64, n2: u64)
    requires
        n1 != n2,
    ensures
        spec_check_email_request(c, email, n1).query.last() == ("_"@, dec_seq(n1 as nat)),
        spec_fetch_email_request(c, email, mail_id, n1).query.last() == (
            "_"@,
            dec_seq(n1 as nat),
        ),
        spec_check_email_request(c, email, n1).query.last().1 != spec_check_email_request(
            c,
            email,
            n2,
        ).query.last().1,
        spec_fetch_email_request(c, email, mail_id, n1).query.last().1
            != spec_fetch_email_request(c, email, mail_id, n2).query.last().1,
{
    if dec_seq(n1 as nat) == dec_seq(n2 as nat) {
        lemma_dec_seq_injective(n1 as nat, n2 as nat);
    }
}

} // verus!
