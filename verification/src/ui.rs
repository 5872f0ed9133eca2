//! Response headers of the service.
use crate::text::{begins_with, same_text};
use vstd::prelude::*;

verus! {

/// A response header.
#[derive(Clone, Copy, Debug, PartialEq)]
pub struct Header {
    pub name: &'static str,
    pub value: &'static str,
}

/// The policy that browsers are to hold the pages to.
pub open spec fn content_security_policy() -> &'static str {
    "default-src 'none'; script-src 'self'; style-src 'self'; img-src 'self' data:; font-src 'self'; connect-src 'self'; object-src 'none'; base-uri 'none'; form-action 'none'; frame-ancestors 'none'"
}

/// Whether the reply under a path must not be kept: that of an endpoint, not of a page.
pub open spec fn uncacheable(path: Seq<char>) -> bool {
    "/api/"@.is_prefix_of(path) || path == "/health"@
}

/// The headers of the reply under a path, whatever its status.
pub open spec fn headers_for(path: Seq<char>) -> Seq<Header> {
    let always = seq![
        Header { name: "content-security-policy", value: content_security_policy() },
        Header { name: "x-content-type-options", value: "nosniff" },
        Header { name: "x-frame-options", value: "DENY" },
        Header { name: "referrer-policy", value: "no-referrer" },
    ];
    if uncacheable(path) {
        always.push(Header { name: "cache-control", value: "no-store" })
    } else {
        always
    }
}

/// The headers of the reply under a path, whatever its status.
pub fn security_headers(path: &str) -> (headers: Vec<Header>)
    ensures
        headers@ == headers_for(path@),
{
    let mut headers: Vec<Header> = Vec::new();
    headers.push(
        Header {
            name: "content-security-policy",
            value:
                "default-src 'none'; script-src 'self'; style-src 'self'; img-src 'self' data:; font-src 'self'; connect-src 'self'; object-src 'none'; base-uri 'none'; form-action 'none'; frame-ancestors 'none'",
        },
    );
    headers.push(Header { name: "x-content-type-options", value: "nosniff" });
    headers.push(Header { name: "x-frame-options", value: "DENY" });
    headers.push(Header { name: "referrer-policy", value: "no-referrer" });
    if begins_with(path, "/api/") || same_text(path, "/health") {
        headers.push(Header { name: "cache-control", value: "no-store" });
    }
    assert(headers@ =~= headers_for(path@));
    headers
}

/// Every reply has the headers that restrict browsers; those under `/api/` and of the health check,
/// and no others, are not to be kept.
pub proof fn law_endpoints_are_not_kept(path: Seq<char>)
    ensures
        headers_for(path)[0].name == "content-security-policy",
        headers_for(path)[0].value
            == "default-src 'none'; script-src 'self'; style-src 'self'; img-src 'self' data:; font-src 'self'; connect-src 'self'; object-src 'none'; base-uri 'none'; form-action 'none'; frame-ancestors 'none'",
        headers_for(path)[1] == (Header { name: "x-content-type-options", value: "nosniff" }),
        headers_for(path)[2] == (Header { name: "x-frame-options", value: "DENY" }),
        headers_for(path)[3] == (Header { name: "referrer-policy", value: "no-referrer" }),
        (exists|rest: Seq<char>| path == #[trigger] ("/api/"@ + rest)) || path == "/health"@ ==> {
            &&& headers_for(path).len() == 5
            &&& headers_for(path)[4] == (Header { name: "cache-control", value: "no-store" })
        },
        !(exists|rest: Seq<char>| path == #[trigger] ("/api/"@ + rest)) && path != "/health"@
            ==> headers_for(path).len() == 4,
{
    if "/api/"@.is_prefix_of(path) {
        let rest = path.skip("/api/"@.len() as int);
        assert(path =~= "/api/"@ + rest);
    }
    if exists|rest: Seq<char>| path == #[trigger] ("/api/"@ + rest) {
        let rest = choose|rest: Seq<char>| path == #[trigger] ("/api/"@ + rest);
        assert("/api/"@ =~= path.subrange(0, "/api/"@.len() as int));
    }
}

} // verus!
