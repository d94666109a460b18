//! Building blocks for ActivityPub servers that sit outside the portable
//! core: HTTP Signatures and WebFinger discovery. Their I/O (clock reads
//! aside) is the host's; what they compute is shared with the core modules.

pub mod signature;
pub mod webfinger;
