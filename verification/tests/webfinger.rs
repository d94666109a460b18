use feder::runtime::webfinger::{select_actor_href, webfinger_url, WebfingerLink};

fn link(rel: Option<&str>, media_type: Option<&str>, href: Option<&str>) -> WebfingerLink {
    WebfingerLink {
        rel: rel.map(str::to_string),
        media_type: media_type.map(str::to_string),
        href: href.map(str::to_string),
    }
}

#[test]
fn lookup_url_names_the_account() {
    assert_eq!(
        webfinger_url("alice", "example.com"),
        "https://example.com/.well-known/webfinger?resource=acct:alice@example.com"
    );
}

#[test]
fn first_activitypub_self_link_is_chosen() {
    let links = vec![
        link(Some("http://webfinger.net/rel/profile-page"), Some("text/html"), Some("https://example.com/@alice")),
        link(Some("self"), Some("text/html"), Some("https://example.com/html")),
        link(Some("self"), Some("application/activity+json"), Some("https://example.com/users/alice")),
        link(Some("self"), Some("application/ld+json"), Some("https://example.com/other")),
    ];
    assert_eq!(select_actor_href(&links), Some("https://example.com/users/alice".to_string()));
}

#[test]
fn ld_json_self_link_is_accepted() {
    let links = vec![link(
        Some("self"),
        Some("application/ld+json; profile=\"https://www.w3.org/ns/activitystreams\""),
        Some("https://example.com/users/alice"),
    )];
    assert_eq!(select_actor_href(&links), Some("https://example.com/users/alice".to_string()));
}

#[test]
fn no_matching_link_gives_none() {
    assert_eq!(select_actor_href(&[]), None);
    let links = vec![
        link(None, Some("application/activity+json"), Some("https://example.com/a")),
        link(Some("self"), None, Some("https://example.com/b")),
    ];
    assert_eq!(select_actor_href(&links), None);
}

#[test]
fn chosen_link_without_href_gives_none() {
    let links = vec![
        link(Some("self"), Some("application/activity+json"), None),
        link(Some("self"), Some("application/activity+json"), Some("https://example.com/later")),
    ];
    assert_eq!(select_actor_href(&links), None);
}
