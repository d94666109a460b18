use feder::inbound::{on_follow, Action};
use feder::vocab::{Follow, Iri, Reference};

fn iri(s: &str) -> Iri {
    s.parse().expect("valid IRI")
}

fn follow_to(target: &str) -> Follow {
    Follow::new(
        iri("https://remote.test/users/bob/follows/1"),
        Reference::id(iri("https://remote.test/users/bob")),
        Reference::id(iri(target)),
    )
}

#[test]
fn unlocked_follow_accepts_and_sends() {
    let me = iri("https://a.test/users/alice");
    let actions = on_follow(follow_to("https://a.test/users/alice"), &me, false, iri("https://a.test/accepts/1"));
    assert_eq!(actions.len(), 2);
    assert_eq!(actions[0], Action::RecordFollow);
    match &actions[1] {
        Action::SendAccept(accept) => {
            // The embedded Follow carries no @context.
            match &accept.object {
                Reference::Object(f) => assert!(f.context.is_none()),
                Reference::Id(_) => panic!("expected embedded Follow"),
            }
        }
        other => panic!("expected SendAccept, got {other:?}"),
    }
}

#[test]
fn locked_follow_is_pending() {
    let me = iri("https://a.test/users/alice");
    let actions = on_follow(follow_to("https://a.test/users/alice"), &me, true, iri("https://a.test/accepts/1"));
    assert_eq!(actions, vec![Action::RecordFollowRequest]);
}

#[test]
fn follow_for_someone_else_is_ignored() {
    let me = iri("https://a.test/users/alice");
    let actions = on_follow(follow_to("https://a.test/users/carol"), &me, false, iri("https://a.test/accepts/1"));
    assert!(actions.is_empty());
}

#[test]
fn accept_is_from_local_actor_with_given_id() {
    let me = iri("https://a.test/users/alice");
    let follow = follow_to("https://a.test/users/alice");
    let actions = on_follow(follow.clone(), &me, false, iri("https://a.test/accepts/9"));
    let Action::SendAccept(accept) = &actions[1] else {
        panic!("expected SendAccept");
    };
    assert_eq!(accept.id, iri("https://a.test/accepts/9"));
    assert_eq!(accept.actor, Reference::id(me.clone()));
    assert_eq!(accept.context.as_ref().map(|c| c.as_str()), Some("https://www.w3.org/ns/activitystreams"));
    let mut expected = follow;
    expected.context = None;
    assert_eq!(accept.object, Reference::object(expected));
}
