//! Portable ActivityPub federation logic: vocabulary, audience addressing,
//! inbound decisions, core state, HTTP Signatures and WebFinger discovery.

pub mod addressing;
pub mod federation;
pub mod inbound;
pub mod runtime;
pub mod signature;
pub mod text;
pub mod vocab;
pub mod webfinger;

pub use federation::{
    Action, Activity, DeliveryTarget, FederConfig, FederCore, FederState, Follower, HandleResult,
    Input, Object, SendActivity, StoreFollower, StoreObject, UserCreateNote,
};
