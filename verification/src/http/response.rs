//! Responses and the builders that shape them.

use vstd::prelude::*;
use vstd::string::StringExecFns;
use crate::codec::{base64_encode, base64_text, json_text, json_value_text};
use crate::dispatch::envelope::{json_quote, json_string};
use crate::string_map::{lookup, with_entry, Pairs, StringMap};
use crate::text::{lowercase, lowercased, optional_text, signed_decimal, signed_decimal_string};

verus! {

/// The model of a response.
pub struct HttpResponseView {
    pub status: u16,
    pub headers: Pairs,
    pub body: Seq<char>,
}

/// A response: status, headers and body.
pub struct HttpResponse {
    pub status: u16,
    pub headers: StringMap,
    pub body: String,
}

impl View for HttpResponse {
    type V = HttpResponseView;

    open spec fn view(&self) -> HttpResponseView {
        HttpResponseView { status: self.status, headers: self.headers@, body: self.body@ }
    }
}

impl Clone for HttpResponse {
    fn clone(&self) -> (copy: HttpResponse)
        ensures
            copy@ == self@,
    {
        HttpResponse {
            status: self.status,
            headers: self.headers.clone(),
            body: self.body.clone(),
        }
    }
}

/// The model of a cookie's options.
pub struct CookieOptionsView {
    pub max_age: Option<i64>,
    pub domain: Option<Seq<char>>,
    pub path: Option<Seq<char>>,
    pub secure: bool,
    pub http_only: bool,
    pub same_site: Option<Seq<char>>,
}

/// The attributes of a cookie. `same_site` is `Strict`, `Lax` or `None`.
#[derive(Debug)]
pub struct CookieOptions {
    pub max_age: Option<i64>,
    pub domain: Option<String>,
    pub path: Option<String>,
    pub secure: bool,
    pub http_only: bool,
    pub same_site: Option<String>,
}

impl View for CookieOptions {
    type V = CookieOptionsView;

    open spec fn view(&self) -> CookieOptionsView {
        CookieOptionsView {
            max_age: self.max_age,
            domain: optional_text(self.domain),
            path: optional_text(self.path),
            secure: self.secure,
            http_only: self.http_only,
            same_site: optional_text(self.same_site),
        }
    }
}

impl Clone for CookieOptions {
    fn clone(&self) -> (copy: CookieOptions)
        ensures
            copy@ == self@,
    {
        CookieOptions {
            max_age: self.max_age,
            domain: match &self.domain {
                Some(d) => Some(d.clone()),
                None => None,
            },
            path: match &self.path {
                Some(p) => Some(p.clone()),
                None => None,
            },
            secure: self.secure,
            http_only: self.http_only,
            same_site: match &self.same_site {
                Some(s) => Some(s.clone()),
                None => None,
            },
        }
    }
}

/// The options of a cookie that names none: the path `/`, HTTP only, and
/// `SameSite=Lax`.
pub open spec fn default_cookie_options() -> CookieOptionsView {
    CookieOptionsView {
        max_age: None,
        domain: None,
        path: Some("/"@),
        secure: false,
        http_only: true,
        same_site: Some("Lax"@),
    }
}

impl Default for CookieOptions {
    fn default() -> (options: CookieOptions)
        ensures
            options@ == default_cookie_options(),
    {
        CookieOptions {
            max_age: None,
            domain: None,
            path: Some(String::from_str("/")),
            secure: false,
            http_only: true,
            same_site: Some(String::from_str("Lax")),
        }
    }
}

/// One attribute of a cookie: the label and the value, or nothing where
/// there is no value.
pub open spec fn attribute_text(label: Seq<char>, value: Option<Seq<char>>) -> Seq<char> {
    match value {
        Some(v) => label + v,
        None => Seq::empty(),
    }
}

/// One flag of a cookie: the label, or nothing where the flag is off.
pub open spec fn flag_text(label: Seq<char>, on: bool) -> Seq<char> {
    if on {
        label
    } else {
        Seq::empty()
    }
}

/// The text `base` followed by the attributes that the options add to a
/// cookie, each led by `; `, in the order Max-Age, Domain, Path, Secure,
/// HttpOnly, SameSite.
pub open spec fn with_attributes(base: Seq<char>, options: CookieOptionsView) -> Seq<char> {
    base + attribute_text(
        "; Max-Age="@,
        match options.max_age {
            Some(age) => Some(signed_decimal(age as int)),
            None => None,
        },
    ) + attribute_text("; Domain="@, options.domain) + attribute_text("; Path="@, options.path)
        + flag_text("; Secure"@, options.secure) + flag_text("; HttpOnly"@, options.http_only)
        + attribute_text("; SameSite="@, options.same_site)
}

/// The text of a cookie: `name=value`, then the attributes of its options.
pub open spec fn cookie_text(
    name: Seq<char>,
    value: Seq<char>,
    options: Option<CookieOptionsView>,
) -> Seq<char> {
    match options {
        Some(options) => with_attributes(name + "="@ + value, options),
        None => name + "="@ + value,
    }
}

/// The `set-cookie` header after adding a cookie: the cookie alone, or the
/// header's earlier value, `, ` and the cookie.
pub open spec fn cookie_header(headers: Pairs, cookie: Seq<char>) -> Seq<char> {
    match lookup(headers, "set-cookie"@) {
        Some(existing) => existing + ", "@ + cookie,
        None => cookie,
    }
}

/// The headers that `with_cors` sets.
pub open spec fn cors_headers(headers: Pairs) -> Pairs {
    with_entry(
        with_entry(
            with_entry(headers, "access-control-allow-origin"@, "*"@),
            "access-control-allow-methods"@,
            "GET, POST, PUT, DELETE, OPTIONS"@,
        ),
        "access-control-allow-headers"@,
        "*"@,
    )
}

/// The headers that `no_cache` sets.
pub open spec fn no_cache_headers(headers: Pairs) -> Pairs {
    with_entry(
        with_entry(
            with_entry(headers, "cache-control"@, "no-cache, no-store, must-revalidate"@),
            "pragma"@,
            "no-cache"@,
        ),
        "expires"@,
        "0"@,
    )
}

/// The headers of a response that carries a file.
pub open spec fn file_headers(content_type: Seq<char>, filename: Option<Seq<char>>) -> Pairs {
    let typed = with_entry(Pairs::empty(), "content-type"@, content_type);
    let named = match filename {
        Some(name) => with_entry(
            typed,
            "content-disposition"@,
            "attachment; filename=\""@ + name + "\""@,
        ),
        None => typed,
    };
    with_entry(named, "x-binary-content"@, "base64"@)
}

/// The response that reports an error: the given status and, as JSON, the
/// object with the one member `error`, the message.
pub open spec fn error_response(status: u16, message: Seq<char>) -> HttpResponseView {
    HttpResponseView {
        status,
        headers: with_entry(Pairs::empty(), "content-type"@, "application/json"@),
        body: "{\"error\":"@ + json_string(message) + "}"@,
    }
}

/// Appends an attribute, where it has a value.
fn append_attribute(text: &mut String, label: &str, value: &Option<String>)
    ensures
        final(text)@ == old(text)@ + attribute_text(label@, optional_text(*value)),
{
    match value {
        Some(v) => {
            text.append(label);
            text.append(v.as_str());
        },
        None => {},
    }
}

/// Appends a flag, where it is on.
fn append_flag(text: &mut String, label: &str, on: bool)
    ensures
        final(text)@ == old(text)@ + flag_text(label@, on),
{
    if on {
        text.append(label);
    }
}

/// Writes the text of a cookie.
fn cookie_string(name: &str, value: &str, options: Option<CookieOptions>) -> (cookie: String)
    ensures
        cookie@ == cookie_text(
            name@,
            value@,
            match options {
                Some(o) => Some(o@),
                None => None,
            },
        ),
{
    let mut cookie = String::from_str(name);
    cookie.append("=");
    cookie.append(value);
    if let Some(opts) = options {
        let max_age = match opts.max_age {
            Some(age) => Some(signed_decimal_string(age)),
            None => None,
        };
        append_attribute(&mut cookie, "; Max-Age=", &max_age);
        append_attribute(&mut cookie, "; Domain=", &opts.domain);
        append_attribute(&mut cookie, "; Path=", &opts.path);
        append_flag(&mut cookie, "; Secure", opts.secure);
        append_flag(&mut cookie, "; HttpOnly", opts.http_only);
        append_attribute(&mut cookie, "; SameSite=", &opts.same_site);
    }
    cookie
}

impl HttpResponse {
    /// The response with status 200, no headers and an empty body.
    pub fn new() -> (r: HttpResponse)
        ensures
            r@ == (HttpResponseView { status: 200, headers: Pairs::empty(), body: Seq::empty() }),
    {
        HttpResponse { status: 200, headers: StringMap::new(), body: String::new() }
    }

    /// A response whose body is the JSON text of `data`.
    pub fn json(data: &serde_json::Value) -> (r: HttpResponse)
        ensures
            r@ == (HttpResponseView {
                status: 200,
                headers: with_entry(Pairs::empty(), "content-type"@, "application/json"@),
                body: json_value_text(*data),
            }),
    {
        let mut response = HttpResponse::new();
        response.headers.insert(
            String::from_str("content-type"),
            String::from_str("application/json"),
        );
        response.body = json_text(data);
        response
    }

    /// A response that carries a file: its body is the content in base64,
    /// which the header `x-binary-content` says; with a file name it is an
    /// attachment of that name.
    pub fn file(content: Vec<u8>, content_type: &str, filename: Option<&str>) -> (r: HttpResponse)
        ensures
            r@ == (HttpResponseView {
                status: 200,
                headers: file_headers(
                    content_type@,
                    match filename {
                        Some(name) => Some(name@),
                        None => None,
                    },
                ),
                body: base64_text(content@),
            }),
    {
        let mut response = HttpResponse::new();
        response.headers.insert(String::from_str("content-type"), String::from_str(content_type));
        if let Some(name) = filename {
            let mut disposition = String::from_str("attachment; filename=\"");
            disposition.append(name);
            disposition.append("\"");
            response.headers.insert(String::from_str("content-disposition"), disposition);
        }
        response.body = base64_encode(content.as_slice());
        response.headers.insert(String::from_str("x-binary-content"), String::from_str("base64"));
        response
    }

    /// A response with the given status whose body is the JSON object
    /// with the one member `error`, the message.
    pub fn error(status: u16, message: &str) -> (r: HttpResponse)
        ensures
            r@ == error_response(status, message@),
    {
        let mut response = HttpResponse::new();
        response.headers.insert(
            String::from_str("content-type"),
            String::from_str("application/json"),
        );
        let mut body = String::from_str("{\"error\":");
        body.append(json_quote(message).as_str());
        body.append("}");
        response.body = body;
        response.with_status(status)
    }

    /// The error response with status 400.
    pub fn bad_request(message: &str) -> (r: HttpResponse)
        ensures
            r@ == error_response(400, message@),
    {
        HttpResponse::error(400, message)
    }

    /// The error response with status 401.
    pub fn unauthorized(message: &str) -> (r: HttpResponse)
        ensures
            r@ == error_response(401, message@),
    {
        HttpResponse::error(401, message)
    }

    /// The error response with status 403.
    pub fn forbidden(message: &str) -> (r: HttpResponse)
        ensures
            r@ == error_response(403, message@),
    {
        HttpResponse::error(403, message)
    }

    /// The error response with status 404.
    pub fn not_found(message: &str) -> (r: HttpResponse)
        ensures
            r@ == error_response(404, message@),
    {
        HttpResponse::error(404, message)
    }

    /// The error response with status 405.
    pub fn method_not_allowed(message: &str) -> (r: HttpResponse)
        ensures
            r@ == error_response(405, message@),
    {
        HttpResponse::error(405, message)
    }

    /// The error response with status 409.
    pub fn conflict(message: &str) -> (r: HttpResponse)
        ensures
            r@ == error_response(409, message@),
    {
        HttpResponse::error(409, message)
    }

    /// The error response with status 422.
    pub fn unprocessable_entity(message: &str) -> (r: HttpResponse)
        ensures
            r@ == error_response(422, message@),
    {
        HttpResponse::error(422, message)
    }

    /// The error response with status 429.
    pub fn too_many_requests(message: &str) -> (r: HttpResponse)
        ensures
            r@ == error_response(429, message@),
    {
        HttpResponse::error(429, message)
    }

    /// The error response with status 500.
    pub fn internal_server_error(message: &str) -> (r: HttpResponse)
        ensures
            r@ == error_response(500, message@),
    {
        HttpResponse::error(500, message)
    }

    /// The error response with status 501.
    pub fn not_implemented(message: &str) -> (r: HttpResponse)
        ensures
            r@ == error_response(501, message@),
    {
        HttpResponse::error(501, message)
    }

    /// The error response with status 503.
    pub fn service_unavailable(message: &str) -> (r: HttpResponse)
        ensures
            r@ == error_response(503, message@),
    {
        HttpResponse::error(503, message)
    }

    /// A response whose body is `content`, declared as HTML.
    pub fn html(content: &str) -> (r: HttpResponse)
        ensures
            r@ == (HttpResponseView {
                status: 200,
                headers: with_entry(
                    Pairs::empty(),
                    "content-type"@,
                    "text/html; charset=utf-8"@,
                ),
                body: content@,
            }),
    {
        let mut response = HttpResponse::new();
        response.headers.insert(
            String::from_str("content-type"),
            String::from_str("text/html; charset=utf-8"),
        );
        response.body = String::from_str(content);
        response
    }

    /// A response whose body is `content`, declared as plain text.
    pub fn text(content: &str) -> (r: HttpResponse)
        ensures
            r@ == (HttpResponseView {
                status: 200,
                headers: with_entry(
                    Pairs::empty(),
                    "content-type"@,
                    "text/plain; charset=utf-8"@,
                ),
                body: content@,
            }),
    {
        let mut response = HttpResponse::new();
        response.headers.insert(
            String::from_str("content-type"),
            String::from_str("text/plain; charset=utf-8"),
        );
        response.body = String::from_str(content);
        response
    }

    /// A response with status 302 that sends the client to `location`.
    pub fn redirect(location: &str) -> (r: HttpResponse)
        ensures
            r@ == (HttpResponseView {
                status: 302,
                headers: with_entry(Pairs::empty(), "location"@, location@),
                body: Seq::empty(),
            }),
    {
        let mut response = HttpResponse::new();
        response.status = 302;
        response.headers.insert(String::from_str("location"), String::from_str(location));
        response
    }

    /// The response with its status replaced.
    pub fn with_status(self, status: u16) -> (r: HttpResponse)
        ensures
            r@ == (HttpResponseView { status, ..self@ }),
    {
        let mut response = self;
        response.status = status;
        response
    }

    /// The response with `value` under the lowercase form of `name`.
    pub fn with_header(self, name: &str, value: &str) -> (r: HttpResponse)
        ensures
            r@ == (HttpResponseView {
                headers: with_entry(self@.headers, lowercased(name@), value@),
                ..self@
            }),
    {
        let mut response = self;
        response.headers.insert(lowercase(name), String::from_str(value));
        response
    }

    /// The response with a cookie added to its `set-cookie` header.
    pub fn with_cookie(self, name: &str, value: &str, options: Option<CookieOptions>) -> (r:
        HttpResponse)
        ensures
            r@ == (HttpResponseView {
                headers: with_entry(
                    self@.headers,
                    "set-cookie"@,
                    cookie_header(
                        self@.headers,
                        cookie_text(
                            name@,
                            value@,
                            match options {
                                Some(o) => Some(o@),
                                None => None,
                            },
                        ),
                    ),
                ),
                ..self@
            }),
    {
        let mut response = self;
        let cookie = cookie_string(name, value, options);
        let header = match response.headers.get("set-cookie") {
            Some(existing) => {
                let mut combined = existing.clone();
                combined.append(", ");
                combined.append(cookie.as_str());
                combined
            },
            None => cookie,
        };
        response.headers.insert(String::from_str("set-cookie"), header);
        response
    }

    /// The response with headers that admit every origin.
    pub fn with_cors(self) -> (r: HttpResponse)
        ensures
            r@ == (HttpResponseView { headers: cors_headers(self@.headers), ..self@ }),
    {
        let mut response = self;
        response.headers.insert(
            String::from_str("access-control-allow-origin"),
            String::from_str("*"),
        );
        response.headers.insert(
            String::from_str("access-control-allow-methods"),
            String::from_str("GET, POST, PUT, DELETE, OPTIONS"),
        );
        response.headers.insert(
            String::from_str("access-control-allow-headers"),
            String::from_str("*"),
        );
        response
    }

    /// The response with the given `cache-control` directive.
    pub fn with_cache_control(self, directive: &str) -> (r: HttpResponse)
        ensures
            r@ == (HttpResponseView {
                headers: with_entry(self@.headers, "cache-control"@, directive@),
                ..self@
            }),
    {
        let mut response = self;
        response.headers.insert(String::from_str("cache-control"), String::from_str(directive));
        response
    }

    /// The response with headers that forbid caching.
    pub fn no_cache(self) -> (r: HttpResponse)
        ensures
            r@ == (HttpResponseView { headers: no_cache_headers(self@.headers), ..self@ }),
    {
        let mut response = self;
        response.headers.insert(
            String::from_str("cache-control"),
            String::from_str("no-cache, no-store, must-revalidate"),
        );
        response.headers.insert(String::from_str("pragma"), String::from_str("no-cache"));
        response.headers.insert(String::from_str("expires"), String::from_str("0"));
        response
    }

    /// The empty response with status 200.
    pub fn ok() -> (r: HttpResponse)
        ensures
            r@ == (HttpResponseView { status: 200, headers: Pairs::empty(), body: Seq::empty() }),
    {
        HttpResponse::new()
    }

    /// The empty response with status 201.
    pub fn created() -> (r: HttpResponse)
        ensures
            r@ == (HttpResponseView { status: 201, headers: Pairs::empty(), body: Seq::empty() }),
    {
        HttpResponse::new().with_status(201)
    }

    /// The empty response with status 204.
    pub fn no_content() -> (r: HttpResponse)
        ensures
            r@ == (HttpResponseView { status: 204, headers: Pairs::empty(), body: Seq::empty() }),
    {
        HttpResponse::new().with_status(204)
    }
}

} // verus!
