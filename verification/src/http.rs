//! What all providers share of the HTTP exchange.

use vstd::prelude::*;
use crate::error::{ProviderError, ProviderErrorView};
use crate::message::SWEET_VERSION;
use crate::text::{join2, trim_end_char, without_trailing};

verus! {

/// The headers of a request, in order.
pub open spec fn header_views(s: Seq<(String, String)>) -> Seq<(Seq<char>, Seq<char>)> {
    s.map_values(|h: (String, String)| (h.0@, h.1@))
}

/// A header.
pub fn header(name: &str, value: &str) -> (r: (String, String))
    ensures
        r.0@ == name@,
        r.1@ == value@,
{
    (name.to_owned(), value.to_owned())
}

/// Adds a header at the end.
pub fn push_header(headers: &mut Vec<(String, String)>, name: &str, value: &str)
    ensures
        header_views(final(headers)@) == header_views(old(headers)@).push((name@, value@)),
{
    headers.push(header(name, value));
    assert(header_views(headers@) =~= header_views(old(headers)@).push((name@, value@)));
}

/// Whether a status stands for success.
pub open spec fn is_success(status: u16) -> bool {
    200 <= status < 300
}

/// Lets a successful answer pass, and makes an error of any other.
pub fn accept(status: u16, body: String) -> (r: Result<String, ProviderError>)
    ensures
        match r {
            Ok(text) => is_success(status) && text@ == body@,
            Err(e) => !is_success(status) && e@ == (ProviderErrorView::Http {
                status,
                body: body@,
            }),
        },
{
    if 200 <= status && status < 300 {
        Ok(body)
    } else {
        Err(ProviderError::Http { status, body })
    }
}

/// The key that the environment holds under `var`, or the error that it is
/// missing.
pub fn required_key(var: &str, value: Option<String>) -> (r: Result<String, ProviderError>)
    ensures
        match r {
            Ok(k) => value is Some && k@ == value->0@,
            Err(e) => value is None && e@ == (ProviderErrorView::MissingApiKey { var: var@ }),
        },
{
    match value {
        Some(k) => Ok(k),
        None => Err(ProviderError::MissingApiKey { var: var.to_owned() }),
    }
}

/// The address of an endpoint: the base without slashes at its end, then the
/// path.
pub open spec fn endpoint(base: Seq<char>, path: Seq<char>) -> Seq<char> {
    without_trailing(base, '/') + path
}

/// The address of an endpoint: the base without slashes at its end, then the
/// path.
pub fn endpoint_url(base: &str, path: &str) -> (r: String)
    ensures
        r@ == endpoint(base@, path@),
{
    let trimmed = trim_end_char(base, '/');
    join2(trimmed.as_str(), path)
}

/// The name under which requests announce themselves.
pub open spec fn default_agent() -> Seq<char> {
    "sweet/"@ + SWEET_VERSION@
}

/// The name under which requests announce themselves.
pub fn default_user_agent() -> (r: String)
    ensures
        r@ == default_agent(),
{
    join2("sweet/", SWEET_VERSION)
}

/// A user agent with another in front of it.
pub fn prepended_user_agent(prefix: &str, agent: &str) -> (r: String)
    ensures
        r@ == prefix@ + " "@ + agent@,
{
    let head = join2(prefix, " ");
    join2(head.as_str(), agent)
}

/// Slashes at the end of the base address do not matter.
pub proof fn law_trailing_slashes_do_not_matter(base: Seq<char>, path: Seq<char>)
    ensures
        endpoint(base.push('/'), path) == endpoint(base, path),
{
    assert(base.push('/').drop_last() =~= base);
}

/// The milliseconds of a duration, or the largest `u64` where they do not fit.
pub fn elapsed_ms(millis: u128) -> (r: u64)
    ensures
        r == if millis <= u64::MAX { millis as u64 } else { u64::MAX },
{
    if millis <= u64::MAX as u128 {
        millis as u64
    } else {
        u64::MAX
    }
}

/// An address is the base, but for slashes at its end, and the path behind
/// it.
pub proof fn law_endpoint_is_base_and_path(base: Seq<char>, path: Seq<char>)
    requires
        base.len() == 0 || base.last() != '/',
    ensures
        endpoint(base, path) == base + path,
{
}

/// A status stands for success exactly where its first digit says so.
pub proof fn law_success_is_told_by_the_first_digit(status: u16)
    ensures
        is_success(status) <==> status / 100 == 2,
{
}

} // verus!
