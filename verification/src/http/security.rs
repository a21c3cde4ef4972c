//! Security headers.

use vstd::prelude::*;
use vstd::string::StringExecFns;
use crate::http::response::{HttpResponse, HttpResponseView};
use crate::string_map::{with_entry, Pairs};
use crate::text::{decimal, decimal_string};

verus! {

/// The model of a security header configuration.
pub struct SecurityHeadersView {
    pub enable_hsts: bool,
    pub enable_xframe: bool,
    pub enable_xcontent: bool,
    pub enable_xss: bool,
    pub enable_csp: bool,
    pub csp_policy: Seq<char>,
    pub hsts_max_age: u32,
}

/// Which security headers a response gets, and with what values.
#[derive(Debug)]
pub struct SecurityHeaders {
    pub enable_hsts: bool,
    pub enable_xframe: bool,
    pub enable_xcontent: bool,
    pub enable_xss: bool,
    pub enable_csp: bool,
    pub csp_policy: String,
    pub hsts_max_age: u32,
}

impl View for SecurityHeaders {
    type V = SecurityHeadersView;

    open spec fn view(&self) -> SecurityHeadersView {
        SecurityHeadersView {
            enable_hsts: self.enable_hsts,
            enable_xframe: self.enable_xframe,
            enable_xcontent: self.enable_xcontent,
            enable_xss: self.enable_xss,
            enable_csp: self.enable_csp,
            csp_policy: self.csp_policy@,
            hsts_max_age: self.hsts_max_age,
        }
    }
}

impl Clone for SecurityHeaders {
    fn clone(&self) -> (copy: SecurityHeaders)
        ensures
            copy@ == self@,
    {
        SecurityHeaders {
            enable_hsts: self.enable_hsts,
            enable_xframe: self.enable_xframe,
            enable_xcontent: self.enable_xcontent,
            enable_xss: self.enable_xss,
            enable_csp: self.enable_csp,
            csp_policy: self.csp_policy.clone(),
            hsts_max_age: self.hsts_max_age,
        }
    }
}

/// The headers with `value` under `name` where `enabled` holds.
pub open spec fn with_optional(headers: Pairs, enabled: bool, name: Seq<char>, value: Seq<char>)
    -> Pairs {
    if enabled {
        with_entry(headers, name, value)
    } else {
        headers
    }
}

/// The headers after applying a configuration: each enabled header is
/// set, in the order transport security, frame options, content type
/// options, XSS protection, content security policy.
pub open spec fn secured(headers: Pairs, config: SecurityHeadersView) -> Pairs {
    with_optional(
        with_optional(
            with_optional(
                with_optional(
                    with_optional(
                        headers,
                        config.enable_hsts,
                        "strict-transport-security"@,
                        "max-age="@ + decimal(config.hsts_max_age as nat),
                    ),
                    config.enable_xframe,
                    "x-frame-options"@,
                    "DENY"@,
                ),
                config.enable_xcontent,
                "x-content-type-options"@,
                "nosniff"@,
            ),
            config.enable_xss,
            "x-xss-protection"@,
            "1; mode=block"@,
        ),
        config.enable_csp,
        "content-security-policy"@,
        config.csp_policy,
    )
}

impl SecurityHeaders {
    /// Every header enabled, a policy that admits the site's own content
    /// only, and transport security for one year.
    pub fn new() -> (config: SecurityHeaders)
        ensures
            config@ == (SecurityHeadersView {
                enable_hsts: true,
                enable_xframe: true,
                enable_xcontent: true,
                enable_xss: true,
                enable_csp: true,
                csp_policy: "default-src 'self'"@,
                hsts_max_age: 31536000,
            }),
    {
        SecurityHeaders {
            enable_hsts: true,
            enable_xframe: true,
            enable_xcontent: true,
            enable_xss: true,
            enable_csp: true,
            csp_policy: String::from_str("default-src 'self'"),
            hsts_max_age: 31536000,
        }
    }

    /// The response with the enabled security headers set.
    pub fn apply_headers(&self, response: HttpResponse) -> (secured_response: HttpResponse)
        ensures
            secured_response@ == (HttpResponseView {
                headers: secured(response@.headers, self@),
                ..response@
            }),
    {
        let mut response = response;
        if self.enable_hsts {
            let mut value = String::from_str("max-age=");
            value.append(decimal_string(self.hsts_max_age as u128).as_str());
            response.headers.insert(String::from_str("strict-transport-security"), value);
        }
        if self.enable_xframe {
            response.headers.insert(String::from_str("x-frame-options"), String::from_str("DENY"));
        }
        if self.enable_xcontent {
            response.headers.insert(
                String::from_str("x-content-type-options"),
                String::from_str("nosniff"),
            );
        }
        if self.enable_xss {
            response.headers.insert(
                String::from_str("x-xss-protection"),
                String::from_str("1; mode=block"),
            );
        }
        if self.enable_csp {
            response.headers.insert(
                String::from_str("content-security-policy"),
                self.csp_policy.clone(),
            );
        }
        response
    }
}

} // verus!
