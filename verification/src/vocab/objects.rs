//! Actors, objects and activities of the vocabulary.

use vstd::prelude::*;

use crate::vocab::iri::Iri;
use crate::vocab::reference::{Reference, References};

verus! {

/// The `@context` holds the Activity Streams context.
pub open spec fn has_default_context(context: Option<Iri>) -> bool {
    context matches Some(c) && c@ == crate::vocab::iri::ACTIVITYSTREAMS_CONTEXT@
}

/// The `type` marker of a Note.
#[derive(Clone, Copy, Debug, Default, PartialEq, Eq, Structural)]
pub enum NoteType {
    #[default]
    Note,
}

/// The `type` marker of a Tombstone.
#[derive(Clone, Copy, Debug, Default, PartialEq, Eq, Structural)]
pub enum TombstoneType {
    #[default]
    Tombstone,
}

/// The `type` marker of a Follow.
#[derive(Clone, Copy, Debug, Default, PartialEq, Eq, Structural)]
pub enum FollowType {
    #[default]
    Follow,
}

/// The `type` marker of an Accept.
#[derive(Clone, Copy, Debug, Default, PartialEq, Eq, Structural)]
pub enum AcceptType {
    #[default]
    Accept,
}

/// The `type` marker of a Reject.
#[derive(Clone, Copy, Debug, Default, PartialEq, Eq, Structural)]
pub enum RejectType {
    #[default]
    Reject,
}

/// The `type` marker of a Create.
#[derive(Clone, Copy, Debug, Default, PartialEq, Eq, Structural)]
pub enum CreateType {
    #[default]
    Create,
}

/// The `type` marker of an Undo.
#[derive(Clone, Copy, Debug, Default, PartialEq, Eq, Structural)]
pub enum UndoType {
    #[default]
    Undo,
}

/// The `type` marker of a Like.
#[derive(Clone, Copy, Debug, Default, PartialEq, Eq, Structural)]
pub enum LikeType {
    #[default]
    Like,
}

/// The `type` marker of an Announce.
#[derive(Clone, Copy, Debug, Default, PartialEq, Eq, Structural)]
pub enum AnnounceType {
    #[default]
    Announce,
}

/// The `type` marker of a Block.
#[derive(Clone, Copy, Debug, Default, PartialEq, Eq, Structural)]
pub enum BlockType {
    #[default]
    Block,
}

/// The `type` marker of a Delete.
#[derive(Clone, Copy, Debug, Default, PartialEq, Eq, Structural)]
pub enum DeleteType {
    #[default]
    Delete,
}

/// The `type` marker of a Update.
#[derive(Clone, Copy, Debug, Default, PartialEq, Eq, Structural)]
pub enum UpdateType {
    #[default]
    Update,
}

/// The kind of an actor.
#[derive(Clone, Copy, Debug, Default, PartialEq, Eq, Structural)]
pub enum ActorType {
    Application,
    Group,
    Organization,
    #[default]
    Person,
    Service,
}

/// A minimal ActivityPub actor.
#[derive(Clone, Debug, PartialEq, Eq)]
pub struct Actor {
    pub context: Option<Iri>,
    pub kind: ActorType,
    pub id: Iri,
    pub inbox: Iri,
    pub outbox: Iri,
    pub preferred_username: Option<String>,
    pub name: Option<String>,
}

impl Actor {
    /// A `Person` actor.
    pub fn person(id: Iri, inbox: Iri, outbox: Iri) -> (r: Self)
        ensures
            has_default_context(r.context),
            r.kind == ActorType::Person,
            r.id == id,
            r.inbox == inbox,
            r.outbox == outbox,
            r.preferred_username is None,
            r.name is None,
    {
        Self::new(ActorType::Person, id, inbox, outbox)
    }

    /// An actor of the given kind.
    pub fn new(kind: ActorType, id: Iri, inbox: Iri, outbox: Iri) -> (r: Self)
        ensures
            has_default_context(r.context),
            r.kind == kind,
            r.id == id,
            r.inbox == inbox,
            r.outbox == outbox,
            r.preferred_username is None,
            r.name is None,
    {
        Actor {
            context: Some(Iri::default_context()),
            kind,
            id,
            inbox,
            outbox,
            preferred_username: None,
            name: None,
        }
    }
}

/// A minimal ActivityStreams Note object.
#[derive(Clone, Debug, PartialEq, Eq)]
pub struct Note {
    pub context: Option<Iri>,
    pub kind: NoteType,
    pub id: Iri,
    pub attributed_to: Option<Reference<Actor>>,
    pub summary: Option<String>,
    pub content: Option<String>,
    pub sensitive: Option<bool>,
    pub in_reply_to: Option<Iri>,
    pub url: Option<Iri>,
    pub to: Vec<Iri>,
    pub cc: Vec<Iri>,
    pub published: Option<String>,
}

impl Note {
    /// A note with only its identifier set.
    pub fn new(id: Iri) -> (r: Self)
        ensures
            has_default_context(r.context),
            r.id == id,
            r.attributed_to is None,
            r.summary is None,
            r.content is None,
            r.sensitive is None,
            r.in_reply_to is None,
            r.url is None,
            r.to@.len() == 0,
            r.cc@.len() == 0,
            r.published is None,
    {
        Note {
            context: Some(Iri::default_context()),
            kind: NoteType::Note,
            id,
            attributed_to: None,
            summary: None,
            content: None,
            sensitive: None,
            in_reply_to: None,
            url: None,
            to: Vec::new(),
            cc: Vec::new(),
            published: None,
        }
    }
}

/// A minimal Follow activity.
#[derive(Clone, Debug, PartialEq, Eq)]
pub struct Follow {
    pub context: Option<Iri>,
    pub kind: FollowType,
    pub id: Iri,
    pub actor: Reference<Actor>,
    pub object: Reference<Actor>,
}

impl Follow {
    /// `actor` follows `object`.
    pub fn new(id: Iri, actor: Reference<Actor>, object: Reference<Actor>) -> (r: Self)
        ensures
            has_default_context(r.context),
            r.id == id,
            r.actor == actor,
            r.object == object,
    {
        Follow { context: Some(Iri::default_context()), kind: FollowType::Follow, id, actor, object }
    }
}

/// A minimal Accept activity.
#[derive(Clone, Debug, PartialEq, Eq)]
pub struct Accept {
    pub context: Option<Iri>,
    pub kind: AcceptType,
    pub id: Iri,
    pub actor: Reference<Actor>,
    pub object: Reference<Follow>,
}

impl Accept {
    /// `actor` accepts the follow `object`.
    pub fn new(id: Iri, actor: Reference<Actor>, object: Reference<Follow>) -> (r: Self)
        ensures
            has_default_context(r.context),
            r.id == id,
            r.actor == actor,
            r.object == object,
    {
        Accept { context: Some(Iri::default_context()), kind: AcceptType::Accept, id, actor, object }
    }
}

/// A minimal Create activity for a concrete object type.
#[derive(Clone, Debug, PartialEq, Eq)]
pub struct Create<T> {
    pub context: Option<Iri>,
    pub kind: CreateType,
    pub id: Iri,
    pub actor: Reference<Actor>,
    pub to: Vec<Iri>,
    pub cc: Vec<Iri>,
    pub object: Reference<T>,
}

impl<T> Create<T> {
    /// `actor` creates `object`.
    pub fn new(id: Iri, actor: Reference<Actor>, object: Reference<T>) -> (r: Self)
        ensures
            has_default_context(r.context),
            r.id == id,
            r.actor == actor,
            r.to@.len() == 0,
            r.cc@.len() == 0,
            r.object == object,
    {
        Create {
            context: Some(Iri::default_context()),
            kind: CreateType::Create,
            id,
            actor,
            to: Vec::new(),
            cc: Vec::new(),
            object,
        }
    }
}

/// A `Reject` activity (e.g. declining a follow request).
#[derive(Clone, Debug, PartialEq, Eq)]
pub struct Reject {
    pub context: Option<Iri>,
    pub kind: RejectType,
    pub id: Iri,
    pub actor: Reference<Actor>,
    pub object: Reference<Follow>,
}

impl Reject {
    /// `actor` rejects the follow `object`.
    pub fn new(id: Iri, actor: Reference<Actor>, object: Reference<Follow>) -> (r: Self)
        ensures
            has_default_context(r.context),
            r.id == id,
            r.actor == actor,
            r.object == object,
    {
        Reject { context: Some(Iri::default_context()), kind: RejectType::Reject, id, actor, object }
    }
}

/// A `Like` activity (favourite).
#[derive(Clone, Debug, PartialEq, Eq)]
pub struct Like {
    pub context: Option<Iri>,
    pub kind: LikeType,
    pub id: Iri,
    pub actor: Reference<Actor>,
    pub object: Iri,
}

impl Like {
    /// `actor` likes `object`.
    pub fn new(id: Iri, actor: Reference<Actor>, object: Iri) -> (r: Self)
        ensures
            has_default_context(r.context),
            r.id == id,
            r.actor == actor,
            r.object == object,
    {
        Like { context: Some(Iri::default_context()), kind: LikeType::Like, id, actor, object }
    }
}

/// An `Announce` activity (boost/reblog).
#[derive(Clone, Debug, PartialEq, Eq)]
pub struct Announce {
    pub context: Option<Iri>,
    pub kind: AnnounceType,
    pub id: Iri,
    pub actor: Reference<Actor>,
    pub published: Option<String>,
    pub to: Vec<Iri>,
    pub cc: Vec<Iri>,
    pub object: Iri,
}

impl Announce {
    /// `actor` announces `object`.
    pub fn new(id: Iri, actor: Reference<Actor>, object: Iri) -> (r: Self)
        ensures
            has_default_context(r.context),
            r.id == id,
            r.actor == actor,
            r.published is None,
            r.to@.len() == 0,
            r.cc@.len() == 0,
            r.object == object,
    {
        Announce {
            context: Some(Iri::default_context()),
            kind: AnnounceType::Announce,
            id,
            actor,
            published: None,
            to: Vec::new(),
            cc: Vec::new(),
            object,
        }
    }
}

/// A `Block` activity.
#[derive(Clone, Debug, PartialEq, Eq)]
pub struct Block {
    pub context: Option<Iri>,
    pub kind: BlockType,
    pub id: Iri,
    pub actor: Reference<Actor>,
    pub object: Iri,
}

impl Block {
    /// `actor` blocks `object`.
    pub fn new(id: Iri, actor: Reference<Actor>, object: Iri) -> (r: Self)
        ensures
            has_default_context(r.context),
            r.id == id,
            r.actor == actor,
            r.object == object,
    {
        Block { context: Some(Iri::default_context()), kind: BlockType::Block, id, actor, object }
    }
}

/// A `Tombstone` object, used as the body of a [`Delete`].
#[derive(Clone, Debug, PartialEq, Eq)]
pub struct Tombstone {
    pub kind: TombstoneType,
    pub id: Iri,
}

impl Tombstone {
    /// The tombstone of the object `id`.
    pub fn new(id: Iri) -> (r: Self)
        ensures
            r.id == id,
    {
        Tombstone { kind: TombstoneType::Tombstone, id }
    }
}

/// A `Delete` activity for a removed object.
#[derive(Clone, Debug, PartialEq, Eq)]
pub struct Delete {
    pub context: Option<Iri>,
    pub kind: DeleteType,
    pub id: Iri,
    pub actor: Reference<Actor>,
    pub object: Tombstone,
}

impl Delete {
    /// `actor` deletes the object that `object` stands for.
    pub fn new(id: Iri, actor: Reference<Actor>, object: Tombstone) -> (r: Self)
        ensures
            has_default_context(r.context),
            r.id == id,
            r.actor == actor,
            r.object == object,
    {
        Delete { context: Some(Iri::default_context()), kind: DeleteType::Delete, id, actor, object }
    }
}

/// An `Update` activity wrapping a changed object of type `T`.
#[derive(Clone, Debug, PartialEq, Eq)]
pub struct Update<T> {
    pub context: Option<Iri>,
    pub kind: UpdateType,
    pub id: Iri,
    pub actor: Reference<Actor>,
    pub to: References<Iri>,
    pub object: T,
}

impl<T> Update<T> {
    /// `actor` updates `object`.
    pub fn new(id: Iri, actor: Reference<Actor>, object: T) -> (r: Self)
        ensures
            has_default_context(r.context),
            r.id == id,
            r.actor == actor,
            r.to@.len() == 0,
            r.object == object,
    {
        Update {
            context: Some(Iri::default_context()),
            kind: UpdateType::Update,
            id,
            actor,
            to: References::new(),
            object,
        }
    }
}

/// An `Undo` activity wrapping a previously-emitted activity of type `T`.
///
/// The wrapped `object` is embedded inline; callers should clear its own
/// `@context` (set `context` to `None`) before wrapping it.
#[derive(Clone, Debug, PartialEq, Eq)]
pub struct Undo<T> {
    pub context: Option<Iri>,
    pub kind: UndoType,
    pub id: Iri,
    pub actor: Reference<Actor>,
    pub object: T,
}

impl<T> Undo<T> {
    /// `actor` undoes `object`.
    pub fn new(id: Iri, actor: Reference<Actor>, object: T) -> (r: Self)
        ensures
            has_default_context(r.context),
            r.id == id,
            r.actor == actor,
            r.object == object,
    {
        Undo { context: Some(Iri::default_context()), kind: UndoType::Undo, id, actor, object }
    }
}

// Consent handshake: the requester sends a request, the target replies with
// an accept carrying a `result` authorization URI, or with a reject. Quote
// posts and account features are the two concrete uses.

/// The kind of consent being requested.
#[derive(Clone, Copy, Debug, Default, PartialEq, Eq, Structural)]
pub enum RequestType {
    /// Request permission to quote a post.
    #[default]
    QuoteRequest,
    /// Request permission to feature an account in a collection.
    FeatureRequest,
}

/// The kind of authorization stamp granted by an accept's `result`.
#[derive(Clone, Copy, Debug, Default, PartialEq, Eq, Structural)]
pub enum AuthorizationType {
    /// Stamp proving a quote was authorized.
    #[default]
    QuoteAuthorization,
    /// Stamp proving an account consented to being featured.
    FeatureAuthorization,
}

/// A consent request: the requester (`actor`) asks the owner of `object` for
/// permission to interact, where `instrument` is the requesting object.
#[derive(Clone, Debug, PartialEq, Eq)]
pub struct ConsentRequest {
    pub context: Option<Iri>,
    pub kind: RequestType,
    pub id: Iri,
    pub actor: Option<Reference<Actor>>,
    pub object: Iri,
    pub instrument: Iri,
}

impl ConsentRequest {
    /// A request of the given kind, without an actor.
    pub fn new(kind: RequestType, id: Iri, object: Iri, instrument: Iri) -> (r: Self)
        ensures
            has_default_context(r.context),
            r.kind == kind,
            r.id == id,
            r.actor is None,
            r.object == object,
            r.instrument == instrument,
    {
        ConsentRequest {
            context: Some(Iri::default_context()),
            kind,
            id,
            actor: None,
            object,
            instrument,
        }
    }
}

/// An `Accept` granting a [`ConsentRequest`]. `object` is the request's URI
/// and `result` points to the [`Authorization`] stamp.
#[derive(Clone, Debug, PartialEq, Eq)]
pub struct ConsentAccept {
    pub context: Option<Iri>,
    pub kind: AcceptType,
    pub id: Iri,
    pub actor: Reference<Actor>,
    pub to: Option<Iri>,
    pub object: Iri,
    pub result: Option<Iri>,
}

impl ConsentAccept {
    /// `actor` grants the request `object`, with the stamp `result`.
    pub fn new(id: Iri, actor: Reference<Actor>, object: Iri, result: Iri) -> (r: Self)
        ensures
            has_default_context(r.context),
            r.id == id,
            r.actor == actor,
            r.to is None,
            r.object == object,
            r.result == Some(result),
    {
        ConsentAccept {
            context: Some(Iri::default_context()),
            kind: AcceptType::Accept,
            id,
            actor,
            to: None,
            object,
            result: Some(result),
        }
    }
}

/// A `Reject` declining a [`ConsentRequest`]. `object` is the request's URI.
#[derive(Clone, Debug, PartialEq, Eq)]
pub struct ConsentReject {
    pub context: Option<Iri>,
    pub kind: RejectType,
    pub id: Iri,
    pub actor: Reference<Actor>,
    pub to: Option<Iri>,
    pub object: Iri,
}

impl ConsentReject {
    /// `actor` declines the request `object`.
    pub fn new(id: Iri, actor: Reference<Actor>, object: Iri) -> (r: Self)
        ensures
            has_default_context(r.context),
            r.id == id,
            r.actor == actor,
            r.to is None,
            r.object == object,
    {
        ConsentReject {
            context: Some(Iri::default_context()),
            kind: RejectType::Reject,
            id,
            actor,
            to: None,
            object,
        }
    }
}

/// An authorization stamp pointed to by a [`ConsentAccept`]'s `result`.
/// `interacting_object` is the requesting object and `interaction_target` the
/// consented-to object.
#[derive(Clone, Debug, PartialEq, Eq)]
pub struct Authorization {
    pub context: Option<Iri>,
    pub kind: AuthorizationType,
    pub id: Iri,
    pub attributed_to: Option<Reference<Actor>>,
    pub interacting_object: Iri,
    pub interaction_target: Iri,
}

impl Authorization {
    /// A stamp of the given kind, without attribution.
    pub fn new(
        kind: AuthorizationType,
        id: Iri,
        interacting_object: Iri,
        interaction_target: Iri,
    ) -> (r: Self)
        ensures
            has_default_context(r.context),
            r.kind == kind,
            r.id == id,
            r.attributed_to is None,
            r.interacting_object == interacting_object,
            r.interaction_target == interaction_target,
    {
        Authorization {
            context: Some(Iri::default_context()),
            kind,
            id,
            attributed_to: None,
            interacting_object,
            interaction_target,
        }
    }
}

} // verus!
