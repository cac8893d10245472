//! Which pages may connect.

use vstd::prelude::*;

use crate::text::{
    law_trimming_takes_off_a_run, same_text, trim_end, trim_start, trimmed_end, trimmed_start,
};

verus! {

/// The host that a URI names: none if the text is no URI, or one without a host.
pub uninterp spec fn uri_host(text: Seq<char>) -> Option<Seq<char>>;

/// `http::Uri::from_str` and `http::Uri::host`: the host in a URI. It is written
/// as in the URI, an address in brackets with its brackets.
#[verifier::external_body]
fn host_of_uri(text: &str) -> (r: Option<String>)
    ensures
        match r {
            Some(host) => uri_host(text@) == Some(host@),
            None => uri_host(text@) is None,
        },
{
    let uri = text.parse::<axum::http::Uri>().ok()?;
    uri.host().map(|host| host.to_owned())
}

/// The scheme that a URI names: none if the text is no URI, or one without a scheme.
pub uninterp spec fn uri_scheme(text: Seq<char>) -> Option<Seq<char>>;

/// `http::Uri::from_str` and `http::Uri::scheme_str`: the scheme in a URI.
#[verifier::external_body]
fn scheme_of_uri(text: &str) -> (r: Option<String>)
    ensures
        match r {
            Some(scheme) => uri_scheme(text@) == Some(scheme@),
            None => uri_scheme(text@) is None,
        },
{
    let uri = text.parse::<axum::http::Uri>().ok()?;
    uri.scheme_str().map(|scheme| scheme.to_owned())
}

/// A host without the brackets that an address stands in.
pub open spec fn bare(host: Seq<char>) -> Seq<char> {
    trimmed_end(trimmed_start(host, '['), ']')
}

/// Whether a host is this machine.
pub open spec fn local(host: Seq<char>) -> bool {
    bare(host) == "127.0.0.1"@ || bare(host) == "localhost"@ || bare(host) == "::1"@
}

/// Whether a host and a scheme are those of the application's own window.
pub open spec fn own_window(host: Seq<char>, scheme: Option<Seq<char>>) -> bool {
    bare(host) == "tauri.localhost"@ && (scheme == Some("http"@) || scheme == Some("https"@))
}

/// Whether a page of a host may connect: a page of this machine under any scheme, and
/// the application's own window under the schemes of the web. An address may stand in
/// brackets.
pub fn is_allowed_host(host: &str, scheme: Option<&str>) -> (r: bool)
    ensures
        r == (local(host@) || own_window(
            host@,
            match scheme {
                Some(scheme) => Some(scheme@),
                None => None,
            },
        )),
{
    let bare = trim_end(trim_start(host, '['), ']');
    if same_text(bare, "127.0.0.1") || same_text(bare, "localhost") || same_text(bare, "::1") {
        return true;
    }
    match scheme {
        Some(scheme) => same_text(bare, "tauri.localhost") && (same_text(scheme, "http")
            || same_text(scheme, "https")),
        None => false,
    }
}

/// Whether a page of an origin may connect.
pub open spec fn allowed(origin: Seq<char>) -> bool {
    match uri_host(origin) {
        Some(host) => local(host) || own_window(host, uri_scheme(origin)),
        None => false,
    }
}

/// Whether a page of an origin may connect: only pages of this machine, and the
/// application's own window. The port does not matter.
pub fn origin_allowed(origin: &str) -> (r: bool)
    ensures
        r == allowed(origin@),
{
    match host_of_uri(origin) {
        Some(host) => match scheme_of_uri(origin) {
            Some(scheme) => is_allowed_host(host.as_str(), Some(scheme.as_str())),
            None => is_allowed_host(host.as_str(), None),
        },
        None => false,
    }
}

/// A page may connect just if the host that its origin names, without brackets, is an address
/// or the name of this machine, or the application's own window under a scheme of the web. An
/// origin without a host may not.
pub proof fn law_only_pages_of_this_machine_connect(origin: Seq<char>, host: Seq<char>)
    requires
        host.len() > 0,
        host[0] != '[',
        host.last() != ']',
    ensures
        uri_host(origin) is None ==> !allowed(origin),
        uri_host(origin) == Some(host) || uri_host(origin) == Some(seq!['['] + host + seq![']'])
            ==> (allowed(origin) <==> {
            ||| host == "127.0.0.1"@
            ||| host == "localhost"@
            ||| host == "::1"@
            ||| host == "tauri.localhost"@ && (uri_scheme(origin) == Some("http"@) || uri_scheme(
                origin,
            ) == Some("https"@))
        }),
{
    let wrapped = seq!['['] + host + seq![']'];
    assert(wrapped =~= seq!['['] + host.push(']'));
    law_trimming_takes_off_a_run(host.push(']'), '[');
    law_trimming_takes_off_a_run(host, ']');
    law_trimming_takes_off_a_run(host, '[');
    assert(host.push(']')[0] == host[0]);
    assert(bare(wrapped) == host);
    assert(bare(host) == host);
}

} // verus!
