use feder::addressing::{audience_for, visibility_from_audience, Visibility};
use feder::vocab::ACTIVITYSTREAMS_PUBLIC;

const PUBLIC: &str = ACTIVITYSTREAMS_PUBLIC;
const FOLLOWERS: &str = "https://a.test/users/alice/followers";

fn owned(values: &[&str]) -> Vec<String> {
    values.iter().map(|v| v.to_string()).collect()
}

#[test]
fn derives_each_visibility() {
    assert_eq!(
        visibility_from_audience(&owned(&[PUBLIC]), &owned(&[FOLLOWERS])),
        Visibility::Public
    );
    assert_eq!(
        visibility_from_audience(&owned(&[FOLLOWERS]), &owned(&[PUBLIC])),
        Visibility::Unlisted
    );
    assert_eq!(
        visibility_from_audience(&owned(&[FOLLOWERS]), &owned(&["https://a.test/users/bob"])),
        Visibility::Private
    );
    assert_eq!(
        visibility_from_audience(&owned(&["https://a.test/users/bob"]), &owned(&[])),
        Visibility::Direct
    );
}

#[test]
fn audience_round_trips_through_visibility() {
    let mentions = vec!["https://b.test/users/bob".to_string()];
    for vis in [
        Visibility::Public,
        Visibility::Unlisted,
        Visibility::Private,
        Visibility::Direct,
    ] {
        let (to, cc) = audience_for(vis, FOLLOWERS, &mentions);
        assert_eq!(visibility_from_audience(&to, &cc), vis, "round-trip {vis:?}");
    }
}

#[test]
fn audience_shapes_match_mastodon() {
    let mentions = vec!["https://b.test/users/bob".to_string()];
    assert_eq!(
        audience_for(Visibility::Public, FOLLOWERS, &mentions),
        (vec![PUBLIC.to_string()], vec![FOLLOWERS.to_string(), mentions[0].clone()])
    );
    assert_eq!(
        audience_for(Visibility::Unlisted, FOLLOWERS, &mentions),
        (vec![FOLLOWERS.to_string()], vec![PUBLIC.to_string(), mentions[0].clone()])
    );
    assert_eq!(
        audience_for(Visibility::Private, FOLLOWERS, &mentions),
        (vec![FOLLOWERS.to_string()], vec![mentions[0].clone()])
    );
    assert_eq!(
        audience_for(Visibility::Direct, FOLLOWERS, &mentions),
        (vec![mentions[0].clone()], Vec::<String>::new())
    );
}

#[test]
fn visibility_default_is_public() {
    assert_eq!(Visibility::default(), Visibility::Public);
}

#[test]
fn public_in_to_wins_over_everything() {
    let to = owned(&["https://a.test/users/bob", PUBLIC]);
    let cc = owned(&[PUBLIC, FOLLOWERS]);
    assert_eq!(visibility_from_audience(&to, &cc), Visibility::Public);
}

#[test]
fn followers_only_in_cc_is_private() {
    let to = owned(&["https://a.test/users/bob"]);
    let cc = owned(&[FOLLOWERS]);
    assert_eq!(visibility_from_audience(&to, &cc), Visibility::Private);
}

#[test]
fn empty_audience_is_direct() {
    assert_eq!(visibility_from_audience(&[], &[]), Visibility::Direct);
}

#[test]
fn near_miss_uris_are_not_special() {
    // Neither the public collection with a trailing slash nor a "followers"
    // path segment that is not the last one is recognised.
    let to = owned(&["https://www.w3.org/ns/activitystreams#Public/", "https://a.test/followers/x"]);
    assert_eq!(visibility_from_audience(&to, &[]), Visibility::Direct);
}

#[test]
fn direct_audience_without_mentions_is_empty() {
    let (to, cc) = audience_for(Visibility::Direct, FOLLOWERS, &[]);
    assert!(to.is_empty());
    assert!(cc.is_empty());
}

#[test]
fn round_trip_fails_when_followers_is_public() {
    // Outside the admissible inputs: an unlisted audience whose followers
    // collection is the public collection reads back as public.
    let (to, cc) = audience_for(Visibility::Unlisted, PUBLIC, &[]);
    assert_eq!(visibility_from_audience(&to, &cc), Visibility::Public);
}
