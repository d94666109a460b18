//! Portable decision logic for inbound activities, expressed as
//! input to actions.
//!
//! Given the parsed activity plus the small bits of context the host already
//! knows (such as whether the target account is locked), these functions
//! return the [`Action`]s the host should carry out against its own storage
//! and delivery. The host owns persistence and transport.

use vstd::prelude::*;

use crate::federation::actor_ref_iri;
use crate::vocab::{has_default_context, Accept, Actor, Follow, Iri, Reference};

verus! {

/// An effect the host should perform in response to an inbound activity.
#[derive(Clone, Debug, PartialEq, Eq)]
pub enum Action {
    /// Persist an accepted follower relationship.
    RecordFollow,
    /// Persist a pending follow request (the target account is locked).
    RecordFollowRequest,
    /// Deliver this `Accept` activity to the follower's inbox.
    SendAccept(Accept),
}

/// Lets the embedded-object branch of a [`Reference`] expose its id.
pub trait AsActorId {
    /// The identifier the object exposes.
    spec fn actor_id_of(&self) -> Iri;

    /// The identifier the object exposes.
    fn actor_id(&self) -> (r: &Iri)
        ensures
            *r == self.actor_id_of(),
    ;
}

impl AsActorId for Actor {
    open spec fn actor_id_of(&self) -> Iri {
        self.id
    }

    fn actor_id(&self) -> (r: &Iri) {
        &self.id
    }
}

/// Resolve the IRI an actor reference points at.
fn actor_ref_id<T: AsActorId>(reference: &Reference<T>) -> (r: Option<&Iri>)
    ensures
        r matches Some(id) && *id == match reference {
            Reference::Id(id) => *id,
            Reference::Object(object) => object.actor_id_of(),
        },
{
    match reference {
        Reference::Id(id) => Some(id),
        Reference::Object(object) => Some(object.actor_id()),
    }
}

/// `accept` is the `Accept` the local actor `local_actor` sends for
/// `follow`: it has the identifier `accept_id` and embeds the follow with its
/// own `@context` cleared.
pub open spec fn is_accept_of(accept: Accept, accept_id: Iri, local_actor: Seq<char>, follow: Follow) -> bool {
    &&& has_default_context(accept.context)
    &&& accept.id == accept_id
    &&& accept.actor matches Reference::Id(a) && a@ == local_actor
    &&& accept.object == Reference::Object(
        Box::new(
            Follow {
                context: None,
                kind: follow.kind,
                id: follow.id,
                actor: follow.actor,
                object: follow.object,
            },
        ),
    )
}

/// Decide how to handle an inbound `Follow` addressed to `local_actor`.
///
/// - Returns no actions if the follow targets someone other than
///   `local_actor`.
/// - A locked account yields a single [`Action::RecordFollowRequest`].
/// - Otherwise the follow is accepted: [`Action::RecordFollow`] plus an
///   [`Action::SendAccept`] carrying the `Accept` to deliver (with the
///   embedded `Follow`'s own `@context` cleared, as it is nested).
pub fn on_follow(follow: Follow, local_actor: &Iri, locked: bool, accept_id: Iri) -> (r: Vec<Action>)
    ensures
        actor_ref_iri(follow.object) != local_actor@ ==> r@.len() == 0,
        actor_ref_iri(follow.object) == local_actor@ && locked ==> r@ == seq![Action::RecordFollowRequest],
        actor_ref_iri(follow.object) == local_actor@ && !locked ==> {
            &&& r@.len() == 2
            &&& r@[0] == Action::RecordFollow
            &&& r@[1] matches Action::SendAccept(accept) && is_accept_of(accept, accept_id, local_actor@, follow)
        },
{
    let object_id = match actor_ref_id(&follow.object) {
        Some(id) => id,
        None => {
            return Vec::new();
        },
    };
    if !object_id.same_as(local_actor) {
        return Vec::new();
    }
    if locked {
        let mut actions: Vec<Action> = Vec::new();
        actions.push(Action::RecordFollowRequest);
        assert(actions@ =~= seq![Action::RecordFollowRequest]);
        return actions;
    }
    let mut embedded = follow;
    embedded.context = None;
    let accept = Accept::new(accept_id, Reference::id(local_actor.duplicate()), Reference::object(embedded));
    let mut actions: Vec<Action> = Vec::new();
    actions.push(Action::RecordFollow);
    actions.push(Action::SendAccept(accept));
    actions
}

} // verus!
