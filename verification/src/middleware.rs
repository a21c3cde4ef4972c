//! The middleware that stands before the dispatcher: its settings, read
//! from JSON configuration, and what each decides of a request.

use vstd::prelude::*;
use vstd::slice::slice_subrange;
use vstd::string::StringExecFns;
use crate::http::request::HttpRequest;
use crate::http::response::{error_response, HttpResponse, HttpResponseView};
use crate::string_map::lookup;
use crate::text::{
    chars_of, decimal, decimal_string, lowercased, starts_with, string_of, text_eq,
    text_starts_with,
};

verus! {

/// `serde_json::Map`, a JSON object, of which the library sees nothing.
#[verifier::external_type_specification]
#[verifier::external_body]
#[verifier::reject_recursive_types(K)]
#[verifier::reject_recursive_types(V)]
pub struct ExJsonMap<K, V>(serde_json::Map<K, V>);

/// A JSON configuration: an object.
pub type Config = serde_json::Map<String, serde_json::Value>;

/// The member of a configuration under `key`, where it is a string.
pub uninterp spec fn config_text_of(config: Config, key: Seq<char>) -> Option<Seq<char>>;

/// The member of a configuration under `key`, where it is a number that an
/// unsigned 64-bit integer holds.
pub uninterp spec fn config_unsigned_of(config: Config, key: Seq<char>) -> Option<u64>;

/// The member of a configuration under `key`, where it is a boolean.
pub uninterp spec fn config_flag_of(config: Config, key: Seq<char>) -> Option<bool>;

/// The member of a configuration under `key`, where it is an array: its
/// items in order, each as its text where it is a string.
pub uninterp spec fn config_list_of(config: Config, key: Seq<char>) -> Option<
    Seq<Option<Seq<char>>>,
>;

/// Reads a string member. Trusted: `Map::get` finds the member and
/// `Value::as_str` yields its text where it is a string.
#[verifier::external_body]
fn config_text(config: &Config, key: &str) -> (r: Option<String>)
    ensures
        crate::text::optional_text(r) == config_text_of(*config, key@),
{
    config.get(key).and_then(|v| v.as_str()).map(String::from)
}

/// Reads an unsigned member. Trusted: `Map::get` finds the member and
/// `Value::as_u64` yields it where it is such a number.
#[verifier::external_body]
fn config_unsigned(config: &Config, key: &str) -> (r: Option<u64>)
    ensures
        r == config_unsigned_of(*config, key@),
{
    config.get(key).and_then(|v| v.as_u64())
}

/// Reads a boolean member. Trusted: `Map::get` finds the member and
/// `Value::as_bool` yields it where it is a boolean.
#[verifier::external_body]
fn config_flag(config: &Config, key: &str) -> (r: Option<bool>)
    ensures
        r == config_flag_of(*config, key@),
{
    config.get(key).and_then(|v| v.as_bool())
}

/// The models of the items of an array.
pub open spec fn item_views(items: Seq<Option<String>>) -> Seq<Option<Seq<char>>> {
    Seq::new(items.len(), |i: int| crate::text::optional_text(items[i]))
}

/// Reads an array member. Trusted: `Map::get` finds the member,
/// `Value::as_array` yields its items where it is an array, and
/// `Value::as_str` the text of each item that is a string.
#[verifier::external_body]
fn config_list(config: &Config, key: &str) -> (r: Option<Vec<Option<String>>>)
    ensures
        match r {
            Some(items) => config_list_of(*config, key@) == Some(item_views(items@)),
            None => config_list_of(*config, key@) is None,
        },
{
    config.get(key).and_then(|v| v.as_array()).map(|items| {
        items.iter().map(|item| item.as_str().map(String::from)).collect()
    })
}

/// The texts of strings.
pub open spec fn string_views(texts: Seq<String>) -> Seq<Seq<char>> {
    Seq::new(texts.len(), |i: int| texts[i]@)
}

/// The items that are strings, in order.
pub open spec fn strings_among(items: Seq<Option<Seq<char>>>) -> Seq<Seq<char>>
    decreases items.len(),
{
    if items.len() == 0 {
        Seq::empty()
    } else {
        match items.last() {
            Some(text) => strings_among(items.drop_last()).push(text),
            None => strings_among(items.drop_last()),
        }
    }
}

/// The items that are strings, in order.
fn strings_of(items: Vec<Option<String>>) -> (texts: Vec<String>)
    ensures
        string_views(texts@) == strings_among(item_views(items@)),
{
    let ghost views = item_views(items@);
    let mut texts: Vec<String> = Vec::new();
    let mut i: usize = 0;
    while i < items.len()
        invariant
            i <= items.len(),
            views == item_views(items@),
            string_views(texts@) == strings_among(views.take(i as int)),
        decreases items.len() - i,
    {
        assert(views.take(i + 1).drop_last() =~= views.take(i as int));
        if let Some(text) = &items[i] {
            texts.push(text.clone());
        }
        i += 1;
    }
    assert(views.take(items.len() as int) =~= views);
    texts
}

/// The strings of the array member under `key`, or `fallback` where the
/// configuration has no such array.
pub open spec fn list_or(config: Config, key: Seq<char>, fallback: Seq<Seq<char>>) -> Seq<
    Seq<char>,
> {
    match config_list_of(config, key) {
        Some(items) => strings_among(items),
        None => fallback,
    }
}

/// The string member under `key`, or `fallback` where the configuration has
/// none.
pub open spec fn text_or(config: Config, key: Seq<char>, fallback: Seq<char>) -> Seq<char> {
    match config_text_of(config, key) {
        Some(text) => text,
        None => fallback,
    }
}

/// The unsigned member under `key`, or `fallback` where the configuration has
/// none.
pub open spec fn unsigned_or(config: Config, key: Seq<char>, fallback: u64) -> u64 {
    match config_unsigned_of(config, key) {
        Some(n) => n,
        None => fallback,
    }
}

/// The boolean member under `key`, or `fallback` where the configuration has
/// none.
pub open spec fn flag_or(config: Config, key: Seq<char>, fallback: bool) -> bool {
    match config_flag_of(config, key) {
        Some(b) => b,
        None => fallback,
    }
}

/// Reads the strings of an array member.
fn read_list(config: &Config, key: &str) -> (texts: Option<Vec<String>>)
    ensures
        match texts {
            Some(t) => config_list_of(*config, key@) is Some && string_views(t@) == strings_among(
                config_list_of(*config, key@)->0,
            ),
            None => config_list_of(*config, key@) is None,
        },
{
    match config_list(config, key) {
        Some(items) => Some(strings_of(items)),
        None => None,
    }
}

/// Reads a string member, or takes the fallback.
fn read_text(config: &Config, key: &str, fallback: &str) -> (text: String)
    ensures
        text@ == text_or(*config, key@, fallback@),
{
    match config_text(config, key) {
        Some(text) => text,
        None => String::from_str(fallback),
    }
}

/// Reads an unsigned member, or takes the fallback.
fn read_unsigned(config: &Config, key: &str, fallback: u64) -> (n: u64)
    ensures
        n == unsigned_or(*config, key@, fallback),
{
    match config_unsigned(config, key) {
        Some(n) => n,
        None => fallback,
    }
}

/// Reads a boolean member, or takes the fallback.
fn read_flag(config: &Config, key: &str, fallback: bool) -> (b: bool)
    ensures
        b == flag_or(*config, key@, fallback),
{
    match config_flag(config, key) {
        Some(b) => b,
        None => fallback,
    }
}

/// The low 32 bits of a number.
pub open spec fn low_32(n: u64) -> u32 {
    (n % 0x1_0000_0000) as u32
}

/// The low 32 bits of a number.
fn truncate_32(n: u64) -> (m: u32)
    ensures
        m == low_32(n),
{
    (n % 0x1_0000_0000) as u32
}

/// Cross-origin settings.
#[derive(Debug)]
pub struct CorsMiddleware {
    pub allow_origins: Vec<String>,
    pub allow_methods: Vec<String>,
    pub allow_headers: Vec<String>,
    pub max_age: Option<u32>,
}

/// The methods that are allowed where the configuration names none.
pub open spec fn default_methods() -> Seq<Seq<char>> {
    seq!["GET"@, "POST"@, "PUT"@, "DELETE"@, "OPTIONS"@]
}

impl CorsMiddleware {
    /// Reads the settings: `allow_origins`, `allow_methods` and
    /// `allow_headers` are arrays of strings, by default every origin, the
    /// common methods and every header; `max_age` is a number, of which
    /// the low 32 bits count.
    pub fn new(config: &Config) -> (cors: CorsMiddleware)
        ensures
            string_views(cors.allow_origins@) == list_or(*config, "allow_origins"@, seq!["*"@]),
            string_views(cors.allow_methods@) == list_or(
                *config,
                "allow_methods"@,
                default_methods(),
            ),
            string_views(cors.allow_headers@) == list_or(*config, "allow_headers"@, seq!["*"@]),
            cors.max_age == match config_unsigned_of(*config, "max_age"@) {
                Some(n) => Some(low_32(n)),
                None => None,
            },
    {
        let allow_origins = match read_list(config, "allow_origins") {
            Some(texts) => texts,
            None => {
                let mut all: Vec<String> = Vec::new();
                all.push(String::from_str("*"));
                all
            },
        };
        let allow_methods = match read_list(config, "allow_methods") {
            Some(texts) => texts,
            None => {
                let mut methods: Vec<String> = Vec::new();
                methods.push(String::from_str("GET"));
                methods.push(String::from_str("POST"));
                methods.push(String::from_str("PUT"));
                methods.push(String::from_str("DELETE"));
                methods.push(String::from_str("OPTIONS"));
                methods
            },
        };
        let allow_headers = match read_list(config, "allow_headers") {
            Some(texts) => texts,
            None => {
                let mut all: Vec<String> = Vec::new();
                all.push(String::from_str("*"));
                all
            },
        };
        let max_age = match config_unsigned(config, "max_age") {
            Some(n) => Some(truncate_32(n)),
            None => None,
        };
        CorsMiddleware { allow_origins, allow_methods, allow_headers, max_age }
    }

    /// Lets every request pass: what CORS asks for goes into responses.
    pub fn process(&self, request: &HttpRequest) -> (r: Result<(), HttpResponse>)
        ensures
            r is Ok,
    {
        Ok(())
    }
}

/// Rate limiting settings.
#[derive(Debug)]
pub struct RateLimitingMiddleware {
    pub requests_per_minute: u32,
    pub window_seconds: u64,
}

impl RateLimitingMiddleware {
    /// Reads the settings: `requests_per_minute`, by default 100, of which
    /// the low 32 bits count, and `window_seconds`, by default 60.
    pub fn new(config: &Config) -> (limits: RateLimitingMiddleware)
        ensures
            limits.requests_per_minute == low_32(unsigned_or(*config, "requests_per_minute"@, 100)),
            limits.window_seconds == unsigned_or(*config, "window_seconds"@, 60),
    {
        RateLimitingMiddleware {
            requests_per_minute: truncate_32(read_unsigned(config, "requests_per_minute", 100)),
            window_seconds: read_unsigned(config, "window_seconds", 60),
        }
    }

    /// Lets every request pass: the server applies the limits.
    pub fn process(&self, request: &HttpRequest) -> (r: Result<(), HttpResponse>)
        ensures
            r is Ok,
    {
        Ok(())
    }
}

/// Authentication settings.
#[derive(Debug)]
pub struct AuthMiddleware {
    pub secret_key: String,
    pub exclude_paths: Vec<String>,
    pub header_name: String,
}

/// Whether a text is among the texts.
pub open spec fn is_among(texts: Seq<Seq<char>>, text: Seq<char>) -> bool {
    exists|i: int| 0 <= i < texts.len() && #[trigger] texts[i] == text
}

/// Whether a text is among the texts.
fn among(texts: &Vec<String>, text: &str) -> (r: bool)
    ensures
        r == is_among(string_views(texts@), text@),
{
    let mut i: usize = 0;
    while i < texts.len()
        invariant
            i <= texts.len(),
            forall|j: int| 0 <= j < i ==> #[trigger] string_views(texts@)[j] != text@,
        decreases texts.len() - i,
    {
        if text_eq(texts[i].as_str(), text) {
            assert(string_views(texts@)[i as int] == text@);
            return true;
        }
        i += 1;
    }
    false
}

/// Whether a header value carries an acceptable bearer token: it begins
/// with `Bearer `, and what follows is longer than ten bytes.
pub open spec fn carries_token(value: Option<Seq<char>>) -> bool {
    match value {
        Some(text) => starts_with(text, "Bearer "@) && token_is_long(text.skip(7)),
        None => false,
    }
}

/// Whether the UTF-8 form of a text is longer than ten bytes.
pub open spec fn token_is_long(token: Seq<char>) -> bool {
    (vstd::utf8::encode_utf8(token).len() as usize) > 10
}

impl AuthMiddleware {
    /// Reads the settings: `secret_key`, by default `default-secret`;
    /// `exclude_paths`, an array of strings, by default empty; and
    /// `header_name`, by default `authorization`.
    pub fn new(config: &Config) -> (auth: AuthMiddleware)
        ensures
            auth.secret_key@ == text_or(*config, "secret_key"@, "default-secret"@),
            string_views(auth.exclude_paths@) == list_or(
                *config,
                "exclude_paths"@,
                Seq::empty(),
            ),
            auth.header_name@ == text_or(*config, "header_name"@, "authorization"@),
    {
        let exclude_paths = match read_list(config, "exclude_paths") {
            Some(texts) => texts,
            None => Vec::<String>::new(),
        };
        AuthMiddleware {
            secret_key: read_text(config, "secret_key", "default-secret"),
            exclude_paths,
            header_name: read_text(config, "header_name", "authorization"),
        }
    }

    /// Whether a token is acceptable: its UTF-8 form is longer than ten
    /// bytes.
    pub fn validate_token(&self, token: &str) -> (ok: bool)
        ensures
            ok == token_is_long(token@),
    {
        token.len() > 10
    }

    /// Lets a request pass where its path is excluded, or where the
    /// configured header carries an acceptable bearer token; answers any
    /// other with 401.
    pub fn process(&self, request: &HttpRequest) -> (r: Result<(), HttpResponse>)
        ensures
            r is Ok <==> is_among(string_views(self.exclude_paths@), request.path@)
                || carries_token(lookup(request.headers@, lowercased(self.header_name@))),
            r matches Err(response) ==> response@ == error_response(
                401,
                "Authentication required"@,
            ),
    {
        if among(&self.exclude_paths, request.path.as_str()) {
            return Ok(());
        }
        if let Some(header) = request.get_header(self.header_name.as_str()) {
            if text_starts_with(header.as_str(), "Bearer ") {
                proof {
                    reveal_strlit("Bearer ");
                }
                let chars = chars_of(header.as_str());
                let rest = slice_subrange(chars.as_slice(), 7, chars.len());
                let token = string_of(rest);
                if self.validate_token(token.as_str()) {
                    return Ok(());
                }
            }
        }
        Err(HttpResponse::unauthorized("Authentication required"))
    }
}

/// Security header settings.
#[derive(Debug)]
pub struct SecurityHeadersMiddleware {
    pub hsts_max_age: u32,
    pub content_type_options: bool,
    pub frame_options: String,
    pub xss_protection: bool,
}

impl SecurityHeadersMiddleware {
    /// Reads the settings: `hsts_max_age`, by default one year, of which
    /// the low 32 bits count; `content_type_options`, by default on;
    /// `frame_options`, by default `DENY`; `xss_protection`, by default
    /// on.
    pub fn new(config: &Config) -> (headers: SecurityHeadersMiddleware)
        ensures
            headers.hsts_max_age == low_32(unsigned_or(*config, "hsts_max_age"@, 31536000)),
            headers.content_type_options == flag_or(*config, "content_type_options"@, true),
            headers.frame_options@ == text_or(*config, "frame_options"@, "DENY"@),
            headers.xss_protection == flag_or(*config, "xss_protection"@, true),
    {
        SecurityHeadersMiddleware {
            hsts_max_age: truncate_32(read_unsigned(config, "hsts_max_age", 31536000)),
            content_type_options: read_flag(config, "content_type_options", true),
            frame_options: read_text(config, "frame_options", "DENY"),
            xss_protection: read_flag(config, "xss_protection", true),
        }
    }

    /// Lets every request pass: the headers go into responses.
    pub fn process(&self, request: &HttpRequest) -> (r: Result<(), HttpResponse>)
        ensures
            r is Ok,
    {
        Ok(())
    }
}

/// Logging settings.
#[derive(Debug)]
pub struct LoggingMiddleware {
    pub log_level: String,
    pub include_body: bool,
    pub include_headers: bool,
}

/// What is logged of a request before its headers: the method, the path
/// and where it came from, then the body where that is asked for and not
/// empty.
pub open spec fn log_line(include_body: bool, request: &HttpRequest) -> Seq<char> {
    request.method@ + " "@ + request.path@ + " from "@ + request.remote_addr@ + if include_body
        && request.body@.len() > 0 {
        " Body: "@ + request.body@
    } else {
        Seq::empty()
    }
}

impl LoggingMiddleware {
    /// Reads the settings: `log_level`, by default `info`; `include_body`,
    /// by default off; `include_headers`, by default on.
    pub fn new(config: &Config) -> (logging: LoggingMiddleware)
        ensures
            logging.log_level@ == text_or(*config, "log_level"@, "info"@),
            logging.include_body == flag_or(*config, "include_body"@, false),
            logging.include_headers == flag_or(*config, "include_headers"@, true),
    {
        LoggingMiddleware {
            log_level: read_text(config, "log_level", "info"),
            include_body: read_flag(config, "include_body", false),
            include_headers: read_flag(config, "include_headers", true),
        }
    }

    /// Writes what is logged of a request, apart from its headers.
    pub fn message(&self, request: &HttpRequest) -> (line: String)
        ensures
            line@ == log_line(self.include_body, request),
    {
        let mut line = request.method.clone();
        line.append(" ");
        line.append(request.path.as_str());
        line.append(" from ");
        line.append(request.remote_addr.as_str());
        if self.include_body && !request.body.as_str().is_empty() {
            line.append(" Body: ");
            line.append(request.body.as_str());
        }
        line
    }

    /// Lets every request pass.
    pub fn process(&self, request: &HttpRequest) -> (r: Result<(), HttpResponse>)
        ensures
            r is Ok,
    {
        Ok(())
    }
}

/// Request validation settings.
#[derive(Debug)]
pub struct ValidationMiddleware {
    pub max_content_length: usize,
    pub allowed_content_types: Vec<String>,
    pub required_headers: Vec<String>,
}

/// Whether one of the texts is a prefix of `text`.
pub open spec fn some_prefix_of(texts: Seq<Seq<char>>, text: Seq<char>) -> bool {
    exists|i: int| 0 <= i < texts.len() && starts_with(text, #[trigger] texts[i])
}

/// The position of the first header that the request lacks, or the number
/// of headers where it has them all.
pub open spec fn first_missing(required: Seq<Seq<char>>, request: &HttpRequest) -> nat
    decreases required.len(),
{
    if required.len() == 0 || lookup(request.headers@, lowercased(required[0])) is None {
        0
    } else {
        1 + first_missing(required.skip(1), request)
    }
}

/// What validation answers a request with, if it does not let it pass:
/// 400 with a message that says what is wrong. The content must not be
/// longer than allowed; its type, where it has one and types are
/// prescribed, must begin with one of them; and no required header may
/// be missing.
pub open spec fn validation_failure(
    max_content_length: usize,
    allowed: Seq<Seq<char>>,
    required: Seq<Seq<char>>,
    request: &HttpRequest,
) -> Option<HttpResponseView> {
    if request.content_length > max_content_length {
        Some(
            error_response(
                400,
                "Content too large. Max allowed: "@ + decimal(max_content_length as nat)
                    + " bytes"@,
            ),
        )
    } else if allowed.len() > 0 && request.content_type@.len() > 0 && !some_prefix_of(
        allowed,
        request.content_type@,
    ) {
        Some(error_response(400, "Invalid content type"@))
    } else if first_missing(required, request) < required.len() {
        Some(
            error_response(
                400,
                "Missing required header: "@ + required[first_missing(required, request) as int],
            ),
        )
    } else {
        None
    }
}

/// The number as a size, of which the bits that a size holds count.
fn usize_of(n: u64) -> (m: usize)
    ensures
        m == n as usize,
{
    #[verifier::truncate]
    (n as usize)
}

impl ValidationMiddleware {
    /// Reads the settings: `max_content_length`, by default ten mebibytes;
    /// `allowed_content_types` and `required_headers`, arrays of strings,
    /// by default empty.
    pub fn new(config: &Config) -> (validation: ValidationMiddleware)
        ensures
            validation.max_content_length == unsigned_or(
                *config,
                "max_content_length"@,
                10485760,
            ) as usize,
            string_views(validation.allowed_content_types@) == list_or(
                *config,
                "allowed_content_types"@,
                Seq::empty(),
            ),
            string_views(validation.required_headers@) == list_or(
                *config,
                "required_headers"@,
                Seq::empty(),
            ),
    {
        let allowed_content_types = match read_list(config, "allowed_content_types") {
            Some(texts) => texts,
            None => Vec::<String>::new(),
        };
        let required_headers = match read_list(config, "required_headers") {
            Some(texts) => texts,
            None => Vec::<String>::new(),
        };
        ValidationMiddleware {
            max_content_length: usize_of(read_unsigned(config, "max_content_length", 10485760)),
            allowed_content_types,
            required_headers,
        }
    }

    /// Whether the content type begins with one of the allowed types.
    fn type_is_allowed(&self, content_type: &str) -> (r: bool)
        ensures
            r == some_prefix_of(string_views(self.allowed_content_types@), content_type@),
    {
        let ghost allowed = string_views(self.allowed_content_types@);
        let mut i: usize = 0;
        while i < self.allowed_content_types.len()
            invariant
                i <= self.allowed_content_types.len(),
                allowed == string_views(self.allowed_content_types@),
                forall|j: int| 0 <= j < i ==> !starts_with(content_type@, #[trigger] allowed[j]),
            decreases self.allowed_content_types.len() - i,
        {
            if text_starts_with(content_type, self.allowed_content_types[i].as_str()) {
                assert(starts_with(content_type@, allowed[i as int]));
                return true;
            }
            i += 1;
        }
        false
    }

    /// Lets a request pass where nothing is wrong with it, and answers it
    /// with 400 otherwise.
    pub fn process(&self, request: &HttpRequest) -> (r: Result<(), HttpResponse>)
        ensures
            match r {
                Ok(_) => validation_failure(
                    self.max_content_length,
                    string_views(self.allowed_content_types@),
                    string_views(self.required_headers@),
                    request,
                ) is None,
                Err(response) => validation_failure(
                    self.max_content_length,
                    string_views(self.allowed_content_types@),
                    string_views(self.required_headers@),
                    request,
                ) == Some(response@),
            },
    {
        if request.content_length > self.max_content_length {
            let mut message = String::from_str("Content too large. Max allowed: ");
            message.append(decimal_string(self.max_content_length as u128).as_str());
            message.append(" bytes");
            return Err(HttpResponse::bad_request(message.as_str()));
        }
        if self.allowed_content_types.len() > 0 && !request.content_type.as_str().is_empty() {
            if !self.type_is_allowed(request.content_type.as_str()) {
                return Err(HttpResponse::bad_request("Invalid content type"));
            }
        }
        let ghost required = string_views(self.required_headers@);
        let mut i: usize = 0;
        assert(required.skip(0) =~= required);
        while i < self.required_headers.len()
            invariant
                i <= self.required_headers.len(),
                required == string_views(self.required_headers@),
                request.content_length <= self.max_content_length,
                !(string_views(self.allowed_content_types@).len() > 0
                    && request.content_type@.len() > 0 && !some_prefix_of(
                    string_views(self.allowed_content_types@),
                    request.content_type@,
                )),
                first_missing(required, request) == i + first_missing(
                    required.skip(i as int),
                    request,
                ),
            decreases self.required_headers.len() - i,
        {
            assert(required.skip(i as int).skip(1) =~= required.skip(i + 1));
            if !request.has_header(self.required_headers[i].as_str()) {
                let mut message = String::from_str("Missing required header: ");
                message.append(self.required_headers[i].as_str());
                return Err(HttpResponse::bad_request(message.as_str()));
            }
            i += 1;
        }
        Ok(())
    }
}

/// The model of a middleware definition.
pub struct MiddlewareDefinitionView {
    pub name: Seq<char>,
    pub config: Config,
    pub enabled: bool,
    pub order: i32,
}

/// One middleware of a chain: its name, its configuration, whether it is
/// switched on, and its place in the order.
pub struct MiddlewareDefinition {
    pub name: String,
    pub config: Config,
    pub enabled: bool,
    pub order: i32,
}

impl View for MiddlewareDefinition {
    type V = MiddlewareDefinitionView;

    open spec fn view(&self) -> MiddlewareDefinitionView {
        MiddlewareDefinitionView {
            name: self.name@,
            config: self.config,
            enabled: self.enabled,
            order: self.order,
        }
    }
}

/// The models of middleware definitions.
pub open spec fn definition_views(definitions: Seq<MiddlewareDefinition>) -> Seq<
    MiddlewareDefinitionView,
> {
    Seq::new(definitions.len(), |i: int| definitions[i]@)
}

/// The position of the first definition whose order is not below `order`,
/// or the number of definitions where every order is below.
pub open spec fn rank(definitions: Seq<MiddlewareDefinitionView>, order: i32) -> nat
    decreases definitions.len(),
{
    if definitions.len() == 0 || definitions[0].order >= order {
        0
    } else {
        1 + rank(definitions.skip(1), order)
    }
}

/// The definitions sorted by order, those of equal order in the order in
/// which they stand.
pub open spec fn sorted_by_order(definitions: Seq<MiddlewareDefinitionView>) -> Seq<
    MiddlewareDefinitionView,
>
    decreases definitions.len(),
{
    if definitions.len() == 0 {
        Seq::empty()
    } else {
        let rest = sorted_by_order(definitions.skip(1));
        rest.insert(rank(rest, definitions[0].order) as int, definitions[0])
    }
}

/// No definition stands before one of lower order.
pub open spec fn in_order(definitions: Seq<MiddlewareDefinitionView>) -> bool {
    forall|i: int, j: int|
        0 <= i < j < definitions.len() ==> (#[trigger] definitions[i]).order <= (
        #[trigger] definitions[j]).order
}

/// `rank` names the first definition whose order is not below `order`.
proof fn lemma_rank(definitions: Seq<MiddlewareDefinitionView>, order: i32)
    ensures
        rank(definitions, order) <= definitions.len(),
        forall|i: int| 0 <= i < rank(definitions, order) ==> (#[trigger] definitions[i]).order < order,
        rank(definitions, order) < definitions.len() ==> definitions[rank(
            definitions,
            order,
        ) as int].order >= order,
    decreases definitions.len(),
{
    if definitions.len() > 0 && definitions[0].order < order {
        let rest = definitions.skip(1);
        lemma_rank(rest, order);
        assert forall|i: int| 0 <= i < rank(definitions, order) implies (
        #[trigger] definitions[i]).order < order by {
            if i > 0 {
                assert(definitions[i] == rest[i - 1]);
            }
        }
    }
}

/// Sorting by order keeps every definition and puts them in order.
pub proof fn law_sorted_by_order(definitions: Seq<MiddlewareDefinitionView>)
    ensures
        sorted_by_order(definitions).len() == definitions.len(),
        sorted_by_order(definitions).to_multiset() == definitions.to_multiset(),
        in_order(sorted_by_order(definitions)),
    decreases definitions.len(),
{
    broadcast use vstd::seq_lib::group_to_multiset_ensures;

    if definitions.len() > 0 {
        let first = definitions[0];
        let rest = sorted_by_order(definitions.skip(1));
        law_sorted_by_order(definitions.skip(1));
        lemma_rank(rest, first.order);
        let at = rank(rest, first.order) as int;
        let sorted = rest.insert(at, first);
        assert forall|i: int, j: int| 0 <= i < j < sorted.len() implies (
        #[trigger] sorted[i]).order <= (#[trigger] sorted[j]).order by {}
        assert(definitions =~= seq![first] + definitions.skip(1));
        vstd::seq_lib::lemma_multiset_commutative(seq![first], definitions.skip(1));
        vstd::seq_lib::lemma_multiset_commutative(rest.subrange(0, at), seq![first]);
        vstd::seq_lib::lemma_multiset_commutative(
            rest.subrange(0, at) + seq![first],
            rest.subrange(at, rest.len() as int),
        );
        vstd::seq_lib::lemma_multiset_commutative(
            rest.subrange(0, at),
            rest.subrange(at, rest.len() as int),
        );
    }
}

/// The definitions of the middleware that stand before the dispatcher.
pub struct MiddlewareChain {
    pub middleware: Vec<MiddlewareDefinition>,
}

/// The position of the first definition whose order is not below `order`.
fn rank_in(definitions: &Vec<MiddlewareDefinition>, order: i32) -> (at: usize)
    ensures
        at == rank(definition_views(definitions@), order),
        at <= definitions.len(),
{
    let ghost views = definition_views(definitions@);
    let mut i: usize = 0;
    assert(views.skip(0) =~= views);
    while i < definitions.len() && definitions[i].order < order
        invariant
            i <= definitions.len(),
            views == definition_views(definitions@),
            rank(views, order) == i + rank(views.skip(i as int), order),
        decreases definitions.len() - i,
    {
        assert(views.skip(i as int).skip(1) =~= views.skip(i + 1));
        i += 1;
    }
    i
}

impl MiddlewareChain {
    /// The empty chain.
    pub fn new() -> (chain: MiddlewareChain)
        ensures
            chain.middleware@.len() == 0,
    {
        MiddlewareChain { middleware: Vec::new() }
    }

    /// Adds a definition and sorts the chain by order, keeping definitions
    /// of equal order in the order in which they stood.
    pub fn add(&mut self, middleware: MiddlewareDefinition)
        ensures
            definition_views(final(self).middleware@) == sorted_by_order(
                definition_views(old(self).middleware@).push(middleware@),
            ),
    {
        let ghost given = middleware@;
        let ghost before_push = definition_views(self.middleware@);
        self.middleware.push(middleware);
        let ghost all = definition_views(self.middleware@);
        assert(all =~= before_push.push(given));
        let mut rest: Vec<MiddlewareDefinition> = Vec::new();
        core::mem::swap(&mut self.middleware, &mut rest);
        let mut sorted: Vec<MiddlewareDefinition> = Vec::new();
        assert(all.skip(all.len() as int) =~= Seq::<MiddlewareDefinitionView>::empty());
        while rest.len() > 0
            invariant
                definition_views(rest@) == all.take(rest@.len() as int),
                rest@.len() <= all.len(),
                definition_views(sorted@) == sorted_by_order(all.skip(rest@.len() as int)),
            decreases rest.len(),
        {
            let ghost k = rest@.len() as int;
            let ghost rest_views = definition_views(rest@);
            let item = rest.pop().unwrap();
            assert(item@ == rest_views[k - 1]);
            assert(all.skip(k - 1).skip(1) =~= all.skip(k));
            let at = rank_in(&sorted, item.order);
            sorted.insert(at, item);
        }
        self.middleware = sorted;
    }

    /// Empties the chain.
    pub fn clear(&mut self)
        ensures
            final(self).middleware@.len() == 0,
    {
        self.middleware.clear();
    }
}

/// What the middleware that a definition names answers a request with, if
/// the definition is switched on and its middleware does not let the
/// request pass. Only `auth` and `validation` ever reject; a name that is
/// not known lets every request pass.
pub open spec fn rejection(definition: MiddlewareDefinitionView, request: &HttpRequest) -> Option<
    HttpResponseView,
> {
    if !definition.enabled {
        None
    } else if definition.name == "auth"@ {
        if is_among(list_or(definition.config, "exclude_paths"@, Seq::empty()), request.path@)
            || carries_token(
            lookup(
                request.headers@,
                lowercased(text_or(definition.config, "header_name"@, "authorization"@)),
            ),
        ) {
            None
        } else {
            Some(error_response(401, "Authentication required"@))
        }
    } else if definition.name == "validation"@ {
        validation_failure(
            unsigned_or(definition.config, "max_content_length"@, 10485760) as usize,
            list_or(definition.config, "allowed_content_types"@, Seq::empty()),
            list_or(definition.config, "required_headers"@, Seq::empty()),
            request,
        )
    } else {
        None
    }
}

/// The position of the first definition that rejects the request, or the
/// number of definitions where none does.
pub open spec fn first_rejecting(
    definitions: Seq<MiddlewareDefinitionView>,
    request: &HttpRequest,
) -> nat
    decreases definitions.len(),
{
    if definitions.len() == 0 || rejection(definitions[0], request) is Some {
        0
    } else {
        1 + first_rejecting(definitions.skip(1), request)
    }
}

/// Applies one definition to a request.
pub fn apply_definition(definition: &MiddlewareDefinition, request: &HttpRequest) -> (r: Result<
    (),
    HttpResponse,
>)
    ensures
        match r {
            Ok(_) => rejection(definition@, request) is None,
            Err(response) => rejection(definition@, request) == Some(response@),
        },
{
    if !definition.enabled {
        return Ok(());
    }
    proof {
        reveal_strlit("cors");
        reveal_strlit("rate_limiting");
        reveal_strlit("auth");
        reveal_strlit("security_headers");
        reveal_strlit("logging");
        reveal_strlit("validation");
    }
    let name = definition.name.as_str();
    proof {
        assert("cors"@.len() == 4 && "auth"@.len() == 4 && "validation"@.len() == 10);
        assert("cors"@[0] == 'c' && "auth"@[0] == 'a');
    }
    if text_eq(name, "cors") {
        CorsMiddleware::new(&definition.config).process(request)
    } else if text_eq(name, "rate_limiting") {
        RateLimitingMiddleware::new(&definition.config).process(request)
    } else if text_eq(name, "auth") {
        AuthMiddleware::new(&definition.config).process(request)
    } else if text_eq(name, "security_headers") {
        SecurityHeadersMiddleware::new(&definition.config).process(request)
    } else if text_eq(name, "logging") {
        LoggingMiddleware::new(&definition.config).process(request)
    } else if text_eq(name, "validation") {
        ValidationMiddleware::new(&definition.config).process(request)
    } else {
        Ok(())
    }
}

/// Applies the chain to a request, definition by definition, and stops at
/// the first that rejects it.
pub fn execute_middleware(chain: &MiddlewareChain, request: &HttpRequest) -> (r: Result<
    (),
    HttpResponse,
>)
    ensures
        match r {
            Ok(_) => first_rejecting(definition_views(chain.middleware@), request)
                == chain.middleware@.len(),
            Err(response) => {
                let at = first_rejecting(definition_views(chain.middleware@), request);
                at < chain.middleware@.len() && rejection(chain.middleware@[at as int]@, request)
                    == Some(response@)
            },
        },
{
    let ghost views = definition_views(chain.middleware@);
    let mut i: usize = 0;
    assert(views.skip(0) =~= views);
    while i < chain.middleware.len()
        invariant
            i <= chain.middleware.len(),
            views == definition_views(chain.middleware@),
            first_rejecting(views, request) == i + first_rejecting(views.skip(i as int), request),
        decreases chain.middleware.len() - i,
    {
        assert(views.skip(i as int).skip(1) =~= views.skip(i + 1));
        match apply_definition(&chain.middleware[i], request) {
            Ok(_) => {},
            Err(response) => {
                return Err(response);
            },
        }
        i += 1;
    }
    Ok(())
}

} // verus!
