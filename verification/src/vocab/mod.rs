//! Minimal Activity Vocabulary types.
//!
//! These types model ActivityPub/ActivityStreams protocol data only. They do
//! not fetch remote objects, read or write storage, or deliver activities.

pub mod iri;
pub mod objects;
pub mod reference;

pub use iri::{InvalidIri, Iri, ACTIVITYSTREAMS_CONTEXT, ACTIVITYSTREAMS_PUBLIC};
pub use reference::{Reference, References};
pub use objects::{
    has_default_context,
    Accept, AcceptType, Actor, ActorType, Announce, AnnounceType, Authorization,
    AuthorizationType, Block, BlockType, ConsentAccept, ConsentReject, ConsentRequest, Create,
    CreateType, Delete, DeleteType, Follow, FollowType, Like, LikeType, Note, NoteType, Reject,
    RejectType, RequestType, Tombstone, TombstoneType, Undo, UndoType, Update, UpdateType,
};
