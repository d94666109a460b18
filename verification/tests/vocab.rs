use feder::vocab::{
    Accept, Actor, ActorType, Announce, Authorization, AuthorizationType, Block, ConsentAccept,
    ConsentReject, ConsentRequest, Create, Delete, Follow, Iri, Like, Note, Reference,
    References, Reject, RequestType, Tombstone, Undo, Update, ACTIVITYSTREAMS_CONTEXT,
};

fn iri(value: &str) -> Iri {
    value.parse().expect("valid test IRI")
}

fn context() -> Option<Iri> {
    Some(iri(ACTIVITYSTREAMS_CONTEXT))
}

#[test]
fn iri_parse_keeps_text_and_refuses_non_iris() {
    assert_eq!(iri("https://example.com/users/alice").as_str(), "https://example.com/users/alice");
    assert!(Iri::parse("not an iri").is_err());
    assert!(Iri::parse("/relative/path").is_err());
    assert!(Iri::parse("").is_err());
    assert_eq!("relative".parse::<Iri>(), Err(feder::vocab::InvalidIri::Syntax));
    assert_eq!(Iri::parse("urn:example:a").map(|i| i.as_str().to_string()), Ok("urn:example:a".to_string()));
}

#[test]
fn actor_constructors_set_context_and_kind() {
    let person = Actor::person(iri("https://e.test/a"), iri("https://e.test/a/inbox"), iri("https://e.test/a/outbox"));
    assert_eq!(person.kind, ActorType::Person);
    assert_eq!(person.context, context());
    assert_eq!(person.inbox, iri("https://e.test/a/inbox"));
    assert_eq!(person.preferred_username, None);
    let service = Actor::new(ActorType::Service, iri("https://e.test/s"), iri("https://e.test/s/in"), iri("https://e.test/s/out"));
    assert_eq!(service.kind, ActorType::Service);
    assert_eq!(service.name, None);
}

#[test]
fn activity_constructors_fill_given_fields() {
    let alice = Reference::<Actor>::id(iri("https://e.test/alice"));
    let note = Note::new(iri("https://e.test/notes/1"));
    assert_eq!(note.context, context());
    assert!(note.to.is_empty() && note.cc.is_empty() && note.content.is_none());
    let follow = Follow::new(iri("https://e.test/f/1"), alice.clone(), Reference::id(iri("https://r.test/bob")));
    let accept = Accept::new(iri("https://e.test/a/1"), alice.clone(), Reference::object(follow.clone()));
    assert_eq!(accept.object, Reference::object(follow.clone()));
    let reject = Reject::new(iri("https://e.test/r/1"), alice.clone(), Reference::id(iri("https://e.test/f/1")));
    assert_eq!(reject.context, context());
    let create = Create::new(iri("https://e.test/c/1"), alice.clone(), Reference::object(note.clone()));
    assert!(create.to.is_empty() && create.cc.is_empty());
    let like = Like::new(iri("https://e.test/l/1"), alice.clone(), iri("https://r.test/n/9"));
    assert_eq!(like.object, iri("https://r.test/n/9"));
    let announce = Announce::new(iri("https://e.test/b/1"), alice.clone(), iri("https://r.test/n/9"));
    assert_eq!(announce.published, None);
    let block = Block::new(iri("https://e.test/k/1"), alice.clone(), iri("https://r.test/bob"));
    assert_eq!(block.actor, alice);
    let delete = Delete::new(iri("https://e.test/n/1#delete"), alice.clone(), Tombstone::new(iri("https://e.test/n/1")));
    assert_eq!(delete.object.id, iri("https://e.test/n/1"));
    let update = Update::new(iri("https://e.test/u/1"), alice.clone(), note.clone());
    assert!(update.to.is_empty());
    let undo = Undo::new(iri("https://e.test/x/1"), alice.clone(), like.clone());
    assert_eq!(undo.object, like);
}

#[test]
fn consent_constructors_fill_given_fields() {
    let request = ConsentRequest::new(
        RequestType::FeatureRequest,
        iri("https://a.test/users/alice/feature_requests/1"),
        iri("https://b.test/users/bob"),
        iri("https://a.test/collections/1"),
    );
    assert_eq!(request.kind, RequestType::FeatureRequest);
    assert_eq!(request.actor, None);
    let accept = ConsentAccept::new(
        iri("https://b.test/users/bob#accepts/1"),
        Reference::id(iri("https://b.test/users/bob")),
        iri("https://a.test/users/alice/feature_requests/1"),
        iri("https://b.test/approvals/1"),
    );
    assert_eq!(accept.result, Some(iri("https://b.test/approvals/1")));
    assert_eq!(accept.to, None);
    let reject = ConsentReject::new(
        iri("https://b.test/users/bob#rejects/1"),
        Reference::id(iri("https://b.test/users/bob")),
        iri("https://a.test/users/alice/feature_requests/1"),
    );
    assert_eq!(reject.object, iri("https://a.test/users/alice/feature_requests/1"));
    let stamp = Authorization::new(
        AuthorizationType::QuoteAuthorization,
        iri("https://b.test/notes/9/approvals/1"),
        iri("https://a.test/notes/1"),
        iri("https://b.test/notes/9"),
    );
    assert_eq!(stamp.attributed_to, None);
    assert_eq!(stamp.interaction_target, iri("https://b.test/notes/9"));
}

#[test]
fn references_hold_values_in_order() {
    let empty = References::<Iri>::new();
    assert!(empty.is_empty());
    assert_eq!(References::<Iri>::default(), empty);
    let one = References::one(iri("https://e.test/alice"));
    assert_eq!(one.len(), 1);
    let many = References::many(vec![iri("https://e.test/alice"), iri("https://e.test/bob")]);
    assert_eq!(many.len(), 2);
    assert_eq!(many.iter().map(Iri::as_str).collect::<Vec<_>>(), vec!["https://e.test/alice", "https://e.test/bob"]);
    assert_eq!(many.into_vec(), vec![iri("https://e.test/alice"), iri("https://e.test/bob")]);
}

#[test]
fn references_from_vec_keeps_order() {
    let values = vec![iri("https://e.test/bob"), iri("https://e.test/alice")];
    let refs: References<Iri> = References::from(values.clone());
    assert_eq!(refs, References::many(values.clone()));
    assert_eq!(refs.into_vec(), values);
    let empty: References<Iri> = Vec::new().into();
    assert!(empty.is_empty());
}
