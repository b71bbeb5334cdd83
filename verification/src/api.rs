//! Response envelope, error taxonomy, and what becomes of an upstream answer.
//!
//! Every route returns the same shape, so a caller writes one parser:
//!   success -> `{"ok":true,"data":…,"meta":{…}}`
//!   failure -> `{"ok":false,"error":{"code":…,"message":…}}`
//! A 404 from BMKG becomes `upstream_not_found`, never an empty 200.

use vstd::prelude::*;
use crate::json::{Json, Tree};
use crate::number::Number;
use crate::text::{contains, contains_text, decimal, decimal_text};

verus! {

pub const VERSION: &'static str = "0.1.0";

pub const USER_AGENT: &'static str = "bmkg-edge (+https://github.com/galohot/bmkg-edge)";

/// What stands beside the data of a success.
#[derive(Debug, PartialEq, Eq)]
pub struct Meta {
    pub source: &'static str,
    pub cached_seconds: u32,
    pub generated_at: String,
}

/// Everything that can go wrong, with the status and machine-readable code it maps to.
#[derive(Debug, PartialEq, Eq)]
pub enum ApiError {
    /// The path does not exist on this service.
    NotFound(String),
    /// The caller's parameters are wrong.
    BadRequest(String),
    /// BMKG has no record for this identifier. The identifier is echoed back.
    UpstreamNotFound(String),
    /// BMKG is unreachable or returned 5xx.
    UpstreamUnavailable(String),
    /// BMKG answered, but not in the shape we know. This is the one that means
    /// *our* parser needs updating, so it must never be silently swallowed.
    UpstreamParse(String),
    /// A binding or the runtime failed.
    Internal(String),
}

/// What an [`ApiError`] says, free of how its message is stored.
pub ghost enum Failure {
    NotFound(Seq<char>),
    BadRequest(Seq<char>),
    UpstreamNotFound(Seq<char>),
    UpstreamUnavailable(Seq<char>),
    UpstreamParse(Seq<char>),
    Internal(Seq<char>),
}

impl Failure {
    pub open spec fn status(self) -> u16 {
        match self {
            Failure::NotFound(_) => 404,
            Failure::BadRequest(_) => 400,
            Failure::UpstreamNotFound(_) => 404,
            Failure::UpstreamUnavailable(_) => 502,
            Failure::UpstreamParse(_) => 502,
            Failure::Internal(_) => 500,
        }
    }

    pub open spec fn code(self) -> Seq<char> {
        match self {
            Failure::NotFound(_) => "not_found"@,
            Failure::BadRequest(_) => "bad_request"@,
            Failure::UpstreamNotFound(_) => "upstream_not_found"@,
            Failure::UpstreamUnavailable(_) => "upstream_unavailable"@,
            Failure::UpstreamParse(_) => "upstream_parse"@,
            Failure::Internal(_) => "internal"@,
        }
    }

    pub open spec fn message(self) -> Seq<char> {
        match self {
            Failure::NotFound(m) => m,
            Failure::BadRequest(m) => m,
            Failure::UpstreamNotFound(m) => m,
            Failure::UpstreamUnavailable(m) => m,
            Failure::UpstreamParse(m) => m,
            Failure::Internal(m) => m,
        }
    }

    /// The failure, with the URL in front where it says that what came from there cannot be
    /// read.
    pub open spec fn naming(self, url: Seq<char>) -> Failure {
        match self {
            Failure::UpstreamParse(m) => Failure::UpstreamParse(url + ": "@ + m),
            other => other,
        }
    }

    /// The failure envelope.
    pub open spec fn envelope(self) -> Tree {
        Tree::Object(
            seq![
                ("ok"@, Tree::Bool(false)),
                (
                    "error"@,
                    Tree::Object(
                        seq![
                            ("code"@, Tree::Text(self.code())),
                            ("message"@, Tree::Text(self.message())),
                        ],
                    ),
                ),
            ],
        )
    }
}

impl View for ApiError {
    type V = Failure;

    open spec fn view(&self) -> Failure {
        match self {
            ApiError::NotFound(m) => Failure::NotFound(m@),
            ApiError::BadRequest(m) => Failure::BadRequest(m@),
            ApiError::UpstreamNotFound(m) => Failure::UpstreamNotFound(m@),
            ApiError::UpstreamUnavailable(m) => Failure::UpstreamUnavailable(m@),
            ApiError::UpstreamParse(m) => Failure::UpstreamParse(m@),
            ApiError::Internal(m) => Failure::Internal(m@),
        }
    }
}

pub type ApiResult<T> = Result<T, ApiError>;

/// What went wrong, if anything did.
pub open spec fn fault(r: ApiResult<()>) -> Option<Failure> {
    match r {
        Ok(_) => None,
        Err(e) => Some(e@),
    }
}

/// A text or what went wrong, free of how either is stored.
pub open spec fn text_result(r: ApiResult<String>) -> Result<Seq<char>, Failure> {
    match r {
        Ok(s) => Ok(s@),
        Err(e) => Err(e@),
    }
}

/// A number's text or what went wrong.
pub open spec fn number_result(r: ApiResult<Number>) -> Result<Seq<char>, Failure> {
    match r {
        Ok(n) => Ok(n@),
        Err(e) => Err(e@),
    }
}

impl ApiError {
    pub fn status(&self) -> (r: u16)
        ensures
            r == self@.status(),
    {
        match self {
            ApiError::NotFound(_) => 404,
            ApiError::BadRequest(_) => 400,
            ApiError::UpstreamNotFound(_) => 404,
            ApiError::UpstreamUnavailable(_) => 502,
            ApiError::UpstreamParse(_) => 502,
            ApiError::Internal(_) => 500,
        }
    }

    pub fn code(&self) -> (r: &'static str)
        ensures
            r@ == self@.code(),
    {
        match self {
            ApiError::NotFound(_) => "not_found",
            ApiError::BadRequest(_) => "bad_request",
            ApiError::UpstreamNotFound(_) => "upstream_not_found",
            ApiError::UpstreamUnavailable(_) => "upstream_unavailable",
            ApiError::UpstreamParse(_) => "upstream_parse",
            ApiError::Internal(_) => "internal",
        }
    }

    pub fn message(&self) -> (r: &str)
        ensures
            r@ == self@.message(),
    {
        match self {
            ApiError::NotFound(m) => m.as_str(),
            ApiError::BadRequest(m) => m.as_str(),
            ApiError::UpstreamNotFound(m) => m.as_str(),
            ApiError::UpstreamUnavailable(m) => m.as_str(),
            ApiError::UpstreamParse(m) => m.as_str(),
            ApiError::Internal(m) => m.as_str(),
        }
    }

    /// Puts the URL in front of a message that says that what came from there cannot be read.
    pub fn naming(self, url: &str) -> (r: ApiError)
        ensures
            r@ == self@.naming(url@),
    {
        match self {
            ApiError::UpstreamParse(m) => {
                let mut named = url.to_owned();
                named.append(": ");
                named.append(m.as_str());
                ApiError::UpstreamParse(named)
            },
            other => other,
        }
    }

    /// The failure envelope as a bare value, so a tool call reports the error that the REST
    /// layer returns without a second formatting path.
    pub fn to_value(&self) -> (r: Json)
        ensures
            r@ == self@.envelope(),
    {
        let error = Json::object().with("code", Json::text(self.code())).with(
            "message",
            Json::text(self.message()),
        );
        assert(error@->Object_0 =~= seq![
            ("code"@, Tree::Text(self@.code())),
            ("message"@, Tree::Text(self@.message())),
        ]);
        let r = Json::object().with("ok", Json::bool(false)).with("error", error);
        assert(r@->Object_0 =~= self@.envelope()->Object_0);
        r
    }
}

/// A header, and what it is set to.
#[derive(Debug, PartialEq, Eq)]
pub struct Header {
    pub name: String,
    pub value: String,
}

pub open spec fn header_views(v: Seq<Header>) -> Seq<(Seq<char>, Seq<char>)> {
    v.map_values(|h: Header| (h.name@, h.value@))
}

/// Sets one more header.
pub fn set_header(headers: &mut Vec<Header>, name: &str, value: &str)
    ensures
        header_views(final(headers)@) == header_views(old(headers)@).push((name@, value@)),
{
    let ghost before = header_views(headers@);
    headers.push(Header { name: name.to_owned(), value: value.to_owned() });
    assert(header_views(headers@) =~= before.push((name@, value@)));
}

/// A response with a JSON body.
#[derive(Debug, PartialEq, Eq)]
pub struct Reply {
    pub status: u16,
    pub headers: Vec<Header>,
    pub body: Json,
}

/// A response with a text body, or with none.
#[derive(Debug, PartialEq, Eq)]
pub struct TextReply {
    pub status: u16,
    pub headers: Vec<Header>,
    pub body: Option<String>,
}

/// How long a response may be kept, as its `cache-control` header says it.
pub open spec fn cache_policy(ttl: nat) -> Seq<char> {
    if ttl > 0 {
        "public, max-age="@ + decimal(ttl) + ", stale-while-revalidate="@ + decimal(ttl * 4)
    } else {
        "no-store"@
    }
}

pub open spec fn decoration(ttl: nat) -> Seq<(Seq<char>, Seq<char>)> {
    seq![
        ("access-control-allow-origin"@, "*"@),
        ("access-control-allow-headers"@, "content-type"@),
        ("access-control-allow-methods"@, "GET, POST, OPTIONS"@),
        ("x-bmkg-edge-version"@, VERSION@),
        ("cache-control"@, cache_policy(ttl)),
    ]
}

/// The headers of every JSON response.
pub fn decorate(ttl: u32) -> (r: Vec<Header>)
    requires
        ttl * 4 <= u32::MAX,
    ensures
        header_views(r@) == decoration(ttl as nat),
{
    let mut h: Vec<Header> = Vec::new();
    assert(header_views(h@) =~= Seq::empty());
    set_header(&mut h, "access-control-allow-origin", "*");
    set_header(&mut h, "access-control-allow-headers", "content-type");
    set_header(&mut h, "access-control-allow-methods", "GET, POST, OPTIONS");
    set_header(&mut h, "x-bmkg-edge-version", VERSION);
    if ttl > 0 {
        let mut policy = "public, max-age=".to_owned();
        policy.append(decimal_text(ttl as u64).as_str());
        policy.append(", stale-while-revalidate=");
        policy.append(decimal_text((ttl * 4) as u64).as_str());
        set_header(&mut h, "cache-control", policy.as_str());
    } else {
        set_header(&mut h, "cache-control", "no-store");
    }
    assert(header_views(h@) =~= decoration(ttl as nat));
    h
}

pub open spec fn meta_tree(source: Seq<char>, ttl: nat, generated_at: Seq<char>) -> Tree {
    Tree::Object(
        seq![
            ("source"@, Tree::Text(source)),
            ("cached_seconds"@, Tree::Unsigned(ttl)),
            ("generated_at"@, Tree::Text(generated_at)),
        ],
    )
}

/// The success envelope.
pub open spec fn success(data: Tree, source: Seq<char>, ttl: nat, generated_at: Seq<char>) -> Tree {
    Tree::Object(
        seq![
            ("ok"@, Tree::Bool(true)),
            ("data"@, data),
            ("meta"@, meta_tree(source, ttl, generated_at)),
        ],
    )
}

impl Meta {
    pub fn to_json(&self) -> (r: Json)
        ensures
            r@ == meta_tree(self.source@, self.cached_seconds as nat, self.generated_at@),
    {
        let r = Json::object().with("source", Json::text(self.source)).with(
            "cached_seconds",
            Json::unsigned(self.cached_seconds as u64),
        ).with("generated_at", Json::text(self.generated_at.as_str()));
        assert(r@->Object_0 =~= meta_tree(
            self.source@,
            self.cached_seconds as nat,
            self.generated_at@,
        )->Object_0);
        r
    }
}

/// Wraps a payload in the success envelope and attaches cache headers.
pub fn json_ok(data: Json, source: &'static str, ttl: u32, generated_at: String) -> (r: Reply)
    requires
        ttl * 4 <= u32::MAX,
    ensures
        r.status == 200,
        r.body@ == success(data@, source@, ttl as nat, generated_at@),
        header_views(r.headers@) == decoration(ttl as nat),
{
    let meta = Meta { source, cached_seconds: ttl, generated_at };
    let body = Json::object().with("ok", Json::bool(true)).with("data", data).with(
        "meta",
        meta.to_json(),
    );
    assert(body@->Object_0 =~= success(data@, source@, ttl as nat, generated_at@)->Object_0);
    Reply { status: 200, headers: decorate(ttl), body }
}

/// The failure envelope with the error's own status, never to be cached.
pub fn json_err(err: &ApiError) -> (r: Reply)
    ensures
        r.status == err@.status(),
        r.body@ == err@.envelope(),
        header_views(r.headers@) == decoration(0),
{
    Reply { status: err.status(), headers: decorate(0), body: err.to_value() }
}

/// What was asked for or what went wrong, free of how either is stored.
pub open spec fn outcome_of(result: ApiResult<Json>) -> Result<Tree, Failure> {
    match result {
        Ok(data) => Ok(data@),
        Err(e) => Err(e@),
    }
}

pub open spec fn reply_status(outcome: Result<Tree, Failure>) -> u16 {
    match outcome {
        Ok(_) => 200,
        Err(f) => f.status(),
    }
}

/// The payload in its envelope, or the failure in its own.
pub open spec fn reply_body(
    outcome: Result<Tree, Failure>,
    source: Seq<char>,
    ttl: nat,
    generated_at: Seq<char>,
) -> Tree {
    match outcome {
        Ok(data) => success(data, source, ttl, generated_at),
        Err(f) => f.envelope(),
    }
}

/// Answers with the payload, or with the failure, which is never to be cached.
pub fn respond(result: ApiResult<Json>, source: &'static str, ttl: u32, generated_at: String) -> (r:
    Reply)
    requires
        ttl * 4 <= u32::MAX,
    ensures
        r.status == reply_status(outcome_of(result)),
        r.body@ == reply_body(outcome_of(result), source@, ttl as nat, generated_at@),
        header_views(r.headers@) == decoration(
            if result is Ok {
                ttl as nat
            } else {
                0
            },
        ),
{
    match result {
        Ok(data) => json_ok(data, source, ttl, generated_at),
        Err(e) => json_err(&e),
    }
}

/// Whether a response may go into the edge cache: it has to say how long it may be kept,
/// and not say that it may not.
pub fn is_storable(cache_control: Option<&str>) -> (r: bool)
    ensures
        r == (cache_control matches Some(cc) && !contains(cc@, "no-store"@)),
{
    match cache_control {
        Some(cc) => !contains_text(cc, "no-store"),
        None => false,
    }
}

// ------------------------------------------------------------------ upstream

/// What came of a request to an upstream.
pub enum Fetched {
    /// The request's headers could not be set.
    Headers(String),
    /// The request could not be built.
    Build(String),
    /// No answer came back.
    Send(String),
    /// An answer came back, with its body or the reason why the body could not be read.
    Answer { status: u16, body: Result<String, String> },
}

pub open spec fn fetched_text(url: Seq<char>, fetched: Fetched) -> Result<Seq<char>, Failure> {
    match fetched {
        Fetched::Headers(e) => Err(Failure::Internal(e@)),
        Fetched::Build(e) => Err(
            Failure::Internal("building request for "@ + url + ": "@ + e@),
        ),
        Fetched::Send(e) => Err(Failure::UpstreamUnavailable(url + ": "@ + e@)),
        Fetched::Answer { status, body } => if 200 <= status <= 299 {
            match body {
                Ok(text) => Ok(text@),
                Err(e) => Err(Failure::UpstreamUnavailable("reading "@ + url + ": "@ + e@)),
            }
        } else if status == 404 {
            Err(Failure::UpstreamNotFound("BMKG has no record at "@ + url))
        } else {
            Err(
                Failure::UpstreamUnavailable(url + " returned HTTP "@ + decimal(status as nat)),
            )
        },
    }
}

/// Whether an answer with this status carries what was asked for.
pub fn is_success(status: u16) -> (r: bool)
    ensures
        r == (200 <= status <= 299),
{
    200 <= status && status <= 299
}

/// The text of an upstream answer, or the error that its failure amounts to.
pub fn fetch_text(url: &str, fetched: Fetched) -> (r: ApiResult<String>)
    ensures
        match fetched_text(url@, fetched) {
            Ok(text) => r matches Ok(s) && s@ == text,
            Err(f) => r matches Err(e) && e@ == f,
        },
{
    match fetched {
        Fetched::Headers(e) => Err(ApiError::Internal(e)),
        Fetched::Build(e) => {
            let mut m = "building request for ".to_owned();
            m.append(url);
            m.append(": ");
            m.append(e.as_str());
            Err(ApiError::Internal(m))
        },
        Fetched::Send(e) => {
            let mut m = url.to_owned();
            m.append(": ");
            m.append(e.as_str());
            Err(ApiError::UpstreamUnavailable(m))
        },
        Fetched::Answer { status, body } => {
            if is_success(status) {
                match body {
                    Ok(text) => Ok(text),
                    Err(e) => {
                        let mut m = "reading ".to_owned();
                        m.append(url);
                        m.append(": ");
                        m.append(e.as_str());
                        Err(ApiError::UpstreamUnavailable(m))
                    },
                }
            } else if status == 404 {
                let mut m = "BMKG has no record at ".to_owned();
                m.append(url);
                Err(ApiError::UpstreamNotFound(m))
            } else {
                let mut m = url.to_owned();
                m.append(" returned HTTP ");
                m.append(decimal_text(status as u64).as_str());
                Err(ApiError::UpstreamUnavailable(m))
            }
        },
    }
}

/// A payload of an unknown shape is reported as `upstream_parse` with the URL in the message.
pub open spec fn unknown_shape(url: Seq<char>, e: Seq<char>) -> Failure {
    Failure::UpstreamParse(url + ": "@ + e + " (BMKG changed its payload shape)"@)
}

/// A decoded upstream payload, from what fetching it came to and, where it was fetched, what
/// decoding it came to. A failed fetch is handed on as it is. A shape mismatch is an
/// `upstream_parse` error naming the URL: the signal that BMKG changed and this crate must
/// follow.
pub fn fetch_json<T>(url: &str, fetched: ApiResult<Result<T, String>>) -> (r: ApiResult<T>)
    ensures
        match fetched {
            Err(e) => r == Err::<T, ApiError>(e),
            Ok(Ok(v)) => r == Ok::<T, ApiError>(v),
            Ok(Err(e)) => r matches Err(f) && f@ == unknown_shape(url@, e@),
        },
{
    match fetched {
        Err(e) => Err(e),
        Ok(Ok(v)) => Ok(v),
        Ok(Err(e)) => {
            let mut m = url.to_owned();
            m.append(": ");
            m.append(e.as_str());
            m.append(" (BMKG changed its payload shape)");
            Err(ApiError::UpstreamParse(m))
        },
    }
}

pub open spec fn request_header_set() -> Seq<(Seq<char>, Seq<char>)> {
    seq![
        ("user-agent"@, USER_AGENT@),
        ("accept"@, "application/json, text/xml, */*"@),
    ]
}

/// The headers of every upstream request.
pub fn request_headers() -> (r: Vec<Header>)
    ensures
        header_views(r@) == request_header_set(),
{
    let mut h: Vec<Header> = Vec::new();
    assert(header_views(h@) =~= Seq::empty());
    set_header(&mut h, "user-agent", USER_AGENT);
    set_header(&mut h, "accept", "application/json, text/xml, */*");
    assert(header_views(h@) =~= request_header_set());
    h
}

// ------------------------------------------------------------------ laws

/// No failure is ever reported with a success status.
pub proof fn failures_never_look_like_success(f: Failure)
    ensures
        400 <= f.status() <= 599,
{
}

/// An upstream 404 is reported as `upstream_not_found` with status 404, whatever its body.
pub proof fn upstream_404_is_not_an_empty_200(url: Seq<char>, body: Result<String, String>)
    ensures
        fetched_text(url, (Fetched::Answer { status: 404, body })) matches Err(f) && f.code()
            == "upstream_not_found"@ && f.status() == 404,
{
}

/// The failure says that what came from this URL cannot be read.
pub open spec fn is_unreadable_at(f: Failure, url: Seq<char>) -> bool {
    f is UpstreamParse && contains(f.message(), url)
}

/// A changed payload is visible: it fails as `upstream_parse`, with a message that names the
/// URL, whether its shape does not decode or what it says cannot be read.
pub proof fn a_changed_payload_names_its_url(url: Seq<char>, e: Seq<char>)
    ensures
        is_unreadable_at(unknown_shape(url, e), url),
        is_unreadable_at(Failure::UpstreamParse(e).naming(url), url),
{
    let m = unknown_shape(url, e).message();
    assert(m.subrange(0, url.len() as int) =~= url);
    assert(crate::text::occurs_at(m, url, 0));
    let n = Failure::UpstreamParse(e).naming(url).message();
    assert(n.subrange(0, url.len() as int) =~= url);
    assert(crate::text::occurs_at(n, url, 0));
}

/// Every envelope says under `ok` whether the request succeeded, and carries either `data`
/// and `meta`, or `error` with its `code` and `message`.
pub proof fn one_response_shape(
    data: Tree,
    source: Seq<char>,
    ttl: nat,
    generated_at: Seq<char>,
    f: Failure,
)
    ensures
        success(data, source, ttl, generated_at).member("ok"@) == Some(Tree::Bool(true)),
        success(data, source, ttl, generated_at).member("data"@) == Some(data),
        success(data, source, ttl, generated_at).member("meta"@) == Some(
            meta_tree(source, ttl, generated_at),
        ),
        success(data, source, ttl, generated_at).member("error"@) is None,
        f.envelope().member("ok"@) == Some(Tree::Bool(false)),
        f.envelope().member("data"@) is None,
        f.envelope().member("error"@) matches Some(e) && e.member_text("code"@) == Some(f.code())
            && e.member_text("message"@) == Some(f.message()),
{
    reveal_strlit("ok");
    reveal_strlit("data");
    reveal_strlit("meta");
    reveal_strlit("error");
    reveal_strlit("code");
    reveal_strlit("message");
    reveal_with_fuel(crate::json::first_named, 4);
    assert("ok"@.len() == 2 && "data"@.len() == 4 && "meta"@.len() == 4 && "error"@.len() == 5
        && "code"@.len() == 4 && "message"@.len() == 7);
    assert("data"@[0] != "meta"@[0]);
}

/// A response is storable exactly when it was marked with a lifetime: the `cache-control`
/// header that `decorate` writes is the single source of truth.
pub proof fn only_what_has_a_lifetime_is_stored(ttl: nat)
    ensures
        contains(cache_policy(ttl), "no-store"@) <==> ttl == 0,
        decoration(ttl)[4] == ("cache-control"@, cache_policy(ttl)),
{
    reveal_strlit("no-store");
    let s = cache_policy(ttl);
    if ttl > 0 {
        reveal_strlit("public, max-age=");
        reveal_strlit(", stale-while-revalidate=");
        crate::text::decimal_reads_back(ttl);
        crate::text::decimal_reads_back(ttl * 4);
        assert forall|i: int| 0 <= i < s.len() implies s[i] != 'n' by {
            let a = "public, max-age="@;
            let b = decimal(ttl);
            let c = ", stale-while-revalidate="@;
            let d = decimal(ttl * 4);
            if i < a.len() {
                assert(s[i] == a[i]);
            } else if i < a.len() + b.len() {
                assert(s[i] == b[i - a.len()]);
            } else if i < a.len() + b.len() + c.len() {
                assert(s[i] == c[i - a.len() - b.len()]);
            } else {
                assert(s[i] == d[i - a.len() - b.len() - c.len()]);
            }
        }
        assert forall|i: int| !crate::text::occurs_at(s, "no-store"@, i) by {
            if crate::text::occurs_at(s, "no-store"@, i) {
                assert(s.subrange(i, i + 8)[0] == 'n');
            }
        }
    } else {
        assert(s.subrange(0, 8) =~= s);
        assert(crate::text::occurs_at(s, "no-store"@, 0));
    }
}

} // verus!
