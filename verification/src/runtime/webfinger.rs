//! WebFinger discovery for the runtime: the lookup URL and the choice of
//! the actor link.

pub use crate::webfinger::{select_actor_href, webfinger_url, WebfingerLink};
