//! WebFinger (RFC 7033) actor discovery: the request URL for a handle and
//! the choice of the ActivityPub actor link in the response.
//!
//! Fetching and decoding the response is the runtime's part; it hands the
//! links of the response here as plain values.

use vstd::prelude::*;
use vstd::string::StrSliceExecFns;

use crate::text::str_eq;

verus! {

/// One entry of the `links` array of a WebFinger response, as far as
/// discovery reads it: each field holds the member's text, or `None` where
/// the member is missing or not a string.
#[derive(Clone, Debug, PartialEq, Eq)]
pub struct WebfingerLink {
    pub rel: Option<String>,
    pub media_type: Option<String>,
    pub href: Option<String>,
}

/// The WebFinger lookup URL for `acct:{user}@{domain}`.
pub open spec fn webfinger_url_of(user: Seq<char>, domain: Seq<char>) -> Seq<char> {
    "https://"@ + domain + "/.well-known/webfinger?resource=acct:"@ + user + "@"@ + domain
}

/// The WebFinger lookup URL for `acct:{user}@{domain}`.
pub fn webfinger_url(user: &str, domain: &str) -> (r: String)
    ensures
        r@ == webfinger_url_of(user@, domain@),
{
    let mut url = String::from_str("https://");
    url.append(domain);
    url.append("/.well-known/webfinger?resource=acct:");
    url.append(user);
    url.append("@");
    url.append(domain);
    url
}

/// `needle` occurs in `text`.
pub open spec fn contains_text(text: Seq<char>, needle: Seq<char>) -> bool {
    exists|i: int|
        0 <= i && i + needle.len() <= text.len() && #[trigger] text.subrange(i, i + needle.len())
            == needle
}

fn occurs_at(text: &str, needle: &str, at: usize) -> (r: bool)
    requires
        at + needle@.len() <= text@.len(),
    ensures
        r == (text@.subrange(at as int, at + needle@.len()) == needle@),
{
    let n = text.unicode_len();
    let m = needle.unicode_len();
    let mut j: usize = 0;
    while j < m
        invariant
            n == text@.len(),
            m == needle@.len(),
            at + m <= text@.len(),
            j <= m,
            forall|k: int| 0 <= k < j ==> text@[at + k] == needle@[k],
        decreases m - j,
    {
        if text.get_char(at + j) != needle.get_char(j) {
            assert(text@.subrange(at as int, at + m)[j as int] != needle@[j as int]);
            return false;
        }
        j = j + 1;
    }
    assert(text@.subrange(at as int, at + m) =~= needle@);
    true
}

/// Whether `needle` occurs in `text` (`str::contains`).
fn contains_str(text: &str, needle: &str) -> (r: bool)
    ensures
        r == contains_text(text@, needle@),
{
    let n = text.unicode_len();
    let m = needle.unicode_len();
    if m > n {
        return false;
    }
    let mut i: usize = 0;
    while i <= n - m
        invariant
            n == text@.len(),
            m == needle@.len(),
            m <= n,
            i <= n - m + 1,
            forall|k: int| 0 <= k < i ==> #[trigger] text@.subrange(k, k + m) != needle@,
        decreases n - m + 1 - i,
    {
        if occurs_at(text, needle, i) {
            return true;
        }
        if i == n - m {
            return false;
        }
        i = i + 1;
    }
    false
}

/// `link` is the actor's own ActivityPub document: `rel` is `self` and the
/// media type names `activity+json` or `ld+json`.
pub open spec fn is_actor_link(link: WebfingerLink) -> bool {
    &&& link.rel matches Some(rel) && rel@ == "self"@
    &&& link.media_type matches Some(t) && (contains_text(t@, "activity+json"@) || contains_text(
        t@,
        "ld+json"@,
    ))
}

/// The `href` of the first actor link of `links`, if that link has one.
pub open spec fn actor_href(links: Seq<WebfingerLink>) -> Option<Seq<char>>
    decreases links.len(),
{
    if links.len() == 0 {
        None
    } else if is_actor_link(links[0]) {
        match links[0].href {
            Some(h) => Some(h@),
            None => None,
        }
    } else {
        actor_href(links.drop_first())
    }
}

fn link_is_actor(link: &WebfingerLink) -> (r: bool)
    ensures
        r == is_actor_link(*link),
{
    let rel_ok = match &link.rel {
        Some(rel) => str_eq(rel.as_str(), "self"),
        None => false,
    };
    if !rel_ok {
        return false;
    }
    match &link.media_type {
        Some(t) => contains_str(t.as_str(), "activity+json") || contains_str(t.as_str(), "ld+json"),
        None => false,
    }
}

/// The actor URL a WebFinger response gives: the `href` of the first `self`
/// link whose type contains `activity+json` or `ld+json`.
pub fn select_actor_href(links: &[WebfingerLink]) -> (r: Option<String>)
    ensures
        match r {
            Some(h) => actor_href(links@) == Some(h@),
            None => actor_href(links@) is None,
        },
{
    let mut i: usize = 0;
    assert(links@.subrange(0, links@.len() as int) =~= links@);
    while i < links.len()
        invariant
            i <= links@.len(),
            actor_href(links@) == actor_href(links@.subrange(i as int, links@.len() as int)),
        decreases links@.len() - i,
    {
        let ghost rest = links@.subrange(i as int, links@.len() as int);
        assert(rest.drop_first() =~= links@.subrange(i + 1, links@.len() as int));
        assert(rest[0] == links@[i as int]);
        if link_is_actor(&links[i]) {
            return match &links[i].href {
                Some(h) => Some(h.clone()),
                None => None,
            };
        }
        i = i + 1;
    }
    None
}

/// `needle` occurs in `text`, stated by positions.
pub open spec fn occurs_in(text: Seq<char>, needle: Seq<char>) -> bool {
    exists|k: int|
        0 <= k && k + needle.len() <= text.len() && #[trigger] text.subrange(k, k + needle.len()) == needle
}

/// `link` has `rel` `self`.
pub open spec fn rel_is_self(link: WebfingerLink) -> bool {
    link.rel matches Some(rel) && rel@ == "self"@
}

/// The media type of `link` names `activity+json` or `ld+json`.
pub open spec fn type_names_json(link: WebfingerLink) -> bool {
    link.media_type matches Some(t) && (occurs_in(t@, "activity+json"@) || occurs_in(t@, "ld+json"@))
}

/// The `href` of `link`, as text.
pub open spec fn href_text(link: WebfingerLink) -> Option<Seq<char>> {
    match link.href {
        Some(h) => Some(h@),
        None => None,
    }
}

/// The actor link is the first link whose `rel` is `self` and whose type
/// names `activity+json` or `ld+json`: links before it are skipped, its
/// `href` is the answer (none where it has none), and without such a link
/// there is no answer.
pub proof fn lemma_actor_link_choice(links: Seq<WebfingerLink>)
    ensures
        links.len() == 0 ==> actor_href(links) is None,
        links.len() > 0 && rel_is_self(links[0]) && type_names_json(links[0]) ==> actor_href(links)
            == href_text(links[0]),
        links.len() > 0 && !rel_is_self(links[0]) ==> actor_href(links) == actor_href(links.drop_first()),
        links.len() > 0 && !type_names_json(links[0]) ==> actor_href(links) == actor_href(
            links.drop_first(),
        ),
{
}

} // verus!
