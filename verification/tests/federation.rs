use feder::vocab::{Actor, Follow, Iri, Reference};
use feder::{
    Action, Activity, DeliveryTarget, FederConfig, FederCore, Follower, HandleResult, Input,
    Object, StoreFollower, UserCreateNote,
};

fn iri(value: &str) -> Iri {
    value.parse().expect("valid test IRI")
}

fn actor(id: &str) -> Actor {
    Actor::person(iri(id), iri(&format!("{id}/inbox")), iri(&format!("{id}/outbox")))
}

fn local_core() -> FederCore {
    FederCore::new(FederConfig::new(actor("https://example.com/users/alice")))
}

#[test]
fn core_is_created_with_local_actor_state() {
    let core = local_core();

    assert_eq!(core.state().local_actor().id, iri("https://example.com/users/alice"));
    assert!(core.state().followers().is_empty());
    assert!(core.state().delivery_targets().is_empty());
    assert!(core.state().objects().is_empty());
    assert!(core.state().activities().is_empty());
}

#[test]
fn received_follow_updates_followers_and_delivery_targets() {
    let mut core = local_core();
    let follow = Follow::new(
        iri("https://remote.example/activities/follow/1"),
        Reference::object(actor("https://remote.example/users/bob")),
        Reference::id(iri("https://example.com/users/alice")),
    );

    let result = core.handle(Input::ReceivedFollow(follow));

    assert!(result.is_empty());
    assert_eq!(
        core.state().followers(),
        &[Follower {
            follower: iri("https://remote.example/users/bob"),
            following: iri("https://example.com/users/alice"),
        }]
    );
    assert_eq!(
        core.state().delivery_targets(),
        &[DeliveryTarget {
            actor: iri("https://remote.example/users/bob"),
            inbox: iri("https://remote.example/users/bob/inbox"),
        }]
    );
}

#[test]
fn received_follow_with_actor_id_records_follower_without_delivery_target() {
    let mut core = local_core();
    let follow = Follow::new(
        iri("https://remote.example/activities/follow/1"),
        Reference::id(iri("https://remote.example/users/bob")),
        Reference::id(iri("https://example.com/users/alice")),
    );

    let result = core.handle(Input::ReceivedFollow(follow));

    assert!(result.is_empty());
    assert_eq!(
        core.state().followers(),
        &[Follower {
            follower: iri("https://remote.example/users/bob"),
            following: iri("https://example.com/users/alice"),
        }]
    );
    assert!(core.state().delivery_targets().is_empty());
}

#[test]
fn received_follow_for_other_actor_is_ignored() {
    let mut core = local_core();
    let follow = Follow::new(
        iri("https://remote.example/activities/follow/1"),
        Reference::object(actor("https://remote.example/users/bob")),
        Reference::id(iri("https://example.com/users/other")),
    );

    let result = core.handle(Input::ReceivedFollow(follow));

    assert!(result.is_empty());
    assert!(core.state().followers().is_empty());
    assert!(core.state().delivery_targets().is_empty());
}

#[test]
fn user_create_note_records_created_object_and_activity() {
    let input = UserCreateNote {
        note_id: iri("https://example.com/notes/1"),
        create_id: iri("https://example.com/activities/create/1"),
        actor: Reference::id(iri("https://example.com/users/alice")),
        content: "Hello from Feder.".to_string(),
        published: Some("2026-06-10T00:00:00Z".to_string()),
    };

    let mut core = local_core();
    let result = core.handle(Input::UserCreateNote(input));

    assert!(result.is_empty());
    assert_eq!(core.state().objects().len(), 1);
    assert_eq!(core.state().activities().len(), 1);

    let Object::Note(note) = &core.state().objects()[0] else {
        panic!("expected Note object");
    };
    assert_eq!(note.id, iri("https://example.com/notes/1"));
    assert_eq!(
        note.attributed_to,
        Some(Reference::id(iri("https://example.com/users/alice")))
    );
    assert_eq!(note.content, Some("Hello from Feder.".to_string()));
    assert_eq!(note.published, Some("2026-06-10T00:00:00Z".to_string()));

    match &core.state().activities()[0] {
        Activity::CreateNote(create) => {
            assert_eq!(create.id, iri("https://example.com/activities/create/1"));
            assert_eq!(create.actor, Reference::id(iri("https://example.com/users/alice")));
        }
        Activity::Accept(_) => panic!("expected Create<Note> activity"),
        _ => panic!("expected Create<Note> activity"),
    }
}

#[test]
fn user_create_note_normalizes_embedded_local_actor_to_local_actor_id() {
    let mut supplied_actor = actor("https://example.com/users/alice");
    supplied_actor.inbox = iri("https://untrusted.example/inbox");

    let input = UserCreateNote {
        note_id: iri("https://example.com/notes/1"),
        create_id: iri("https://example.com/activities/create/1"),
        actor: Reference::object(supplied_actor),
        content: "Hello from Feder.".to_string(),
        published: None,
    };

    let mut core = local_core();
    let result = core.handle(Input::UserCreateNote(input));

    assert!(result.is_empty());

    let Object::Note(note) = &core.state().objects()[0] else {
        panic!("expected Note object");
    };
    assert_eq!(
        note.attributed_to,
        Some(Reference::id(iri("https://example.com/users/alice")))
    );

    let Activity::CreateNote(create) = &core.state().activities()[0] else {
        panic!("expected Create<Note> activity");
    };
    assert_eq!(create.actor, Reference::id(iri("https://example.com/users/alice")));
}

#[test]
fn user_create_note_for_non_local_actor_is_ignored() {
    let input = UserCreateNote {
        note_id: iri("https://remote.example/notes/1"),
        create_id: iri("https://remote.example/activities/create/1"),
        actor: Reference::id(iri("https://remote.example/users/bob")),
        content: "Hello from elsewhere.".to_string(),
        published: Some("2026-06-10T00:00:00Z".to_string()),
    };

    let mut core = local_core();
    let result = core.handle(Input::UserCreateNote(input));

    assert!(result.is_empty());
    assert!(core.state().objects().is_empty());
    assert!(core.state().activities().is_empty());
}

#[test]
fn handle_result_wraps_action_lists() {
    let result = HandleResult::new(Vec::from([Action::StoreFollower(StoreFollower {
        follower: Reference::id(iri("https://remote.example/users/bob")),
        following: Reference::id(iri("https://example.com/users/alice")),
    })]));

    assert_eq!(result.actions.len(), 1);
}

#[test]
fn repeated_follow_is_recorded_once() {
    let mut core = local_core();
    for _ in 0..2 {
        let follow = Follow::new(
            iri("https://remote.example/activities/follow/1"),
            Reference::object(actor("https://remote.example/users/bob")),
            Reference::id(iri("https://example.com/users/alice")),
        );
        assert!(core.handle(Input::ReceivedFollow(follow)).is_empty());
    }
    assert_eq!(core.state().followers().len(), 1);
    assert_eq!(core.state().delivery_targets().len(), 1);
}

#[test]
fn id_follow_then_embedded_follow_adds_only_the_target() {
    let mut core = local_core();
    let by_id = Follow::new(
        iri("https://remote.example/activities/follow/1"),
        Reference::id(iri("https://remote.example/users/bob")),
        Reference::id(iri("https://example.com/users/alice")),
    );
    let embedded = Follow::new(
        iri("https://remote.example/activities/follow/2"),
        Reference::object(actor("https://remote.example/users/bob")),
        Reference::object(actor("https://example.com/users/alice")),
    );
    let _ = core.handle(Input::ReceivedFollow(by_id));
    let _ = core.handle(Input::ReceivedFollow(embedded));
    assert_eq!(core.state().followers().len(), 1);
    assert_eq!(
        core.state().delivery_targets(),
        &[DeliveryTarget {
            actor: iri("https://remote.example/users/bob"),
            inbox: iri("https://remote.example/users/bob/inbox"),
        }]
    );
}

#[test]
fn created_note_is_embedded_unchanged_in_its_create() {
    let input = UserCreateNote {
        note_id: iri("https://example.com/notes/7"),
        create_id: iri("https://example.com/activities/create/7"),
        actor: Reference::id(iri("https://example.com/users/alice")),
        content: "Seven.".to_string(),
        published: None,
    };
    let mut core = local_core();
    let _ = core.handle(Input::UserCreateNote(input));
    let Object::Note(note) = &core.state().objects()[0] else {
        panic!("expected Note object");
    };
    let Activity::CreateNote(create) = &core.state().activities()[0] else {
        panic!("expected Create<Note> activity");
    };
    assert_eq!(create.object, Reference::object(note.clone()));
    assert!(note.context.is_some());
    assert!(note.to.is_empty() && note.cc.is_empty());
}

#[test]
fn repeated_follow_leaves_the_state_unchanged() {
    let mut core = local_core();
    let follow = Follow::new(
        iri("https://remote.example/activities/follow/1"),
        Reference::object(actor("https://remote.example/users/bob")),
        Reference::id(iri("https://example.com/users/alice")),
    );
    let _ = core.handle(Input::ReceivedFollow(follow.clone()));
    let once = core.state().clone();
    let _ = core.handle(Input::ReceivedFollow(follow));
    assert_eq!(core.state(), &once);
}

#[test]
fn new_core_state_equals_new_state() {
    let config = FederConfig::new(actor("https://example.com/users/alice"));
    let core = FederCore::new(config.clone());
    assert_eq!(core.state(), &feder::FederState::new(config));
}

#[test]
fn each_object_is_the_note_its_activity_creates() {
    let mut core = local_core();
    for n in 1..=3 {
        let input = UserCreateNote {
            note_id: iri(&format!("https://example.com/notes/{n}")),
            create_id: iri(&format!("https://example.com/activities/create/{n}")),
            actor: Reference::id(iri("https://example.com/users/alice")),
            content: format!("Note {n}."),
            published: Some("2026-06-10T00:00:00Z".to_string()),
        };
        let _ = core.handle(Input::UserCreateNote(input));
    }
    let state = core.state();
    assert_eq!(state.objects().len(), 3);
    for (object, activity) in state.objects().iter().zip(state.activities()) {
        let Object::Note(note) = object else {
            panic!("expected Note object");
        };
        let Activity::CreateNote(create) = activity else {
            panic!("expected Create<Note> activity");
        };
        assert_eq!(create.object, Reference::object(note.clone()));
        assert_eq!(create.actor, Reference::id(iri("https://example.com/users/alice")));
        assert_eq!(note.attributed_to, Some(create.actor.clone()));
    }
}
