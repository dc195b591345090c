//! A session-windowed journal router.
//!
//! Short messages arrive from a transport layer and are durably recorded as
//! markdown entries in local files.  The library holds the decision logic:
//! which file a message is routed to (an existing, recently written file, a
//! fresh time-keyed file, or a hashtag-named topic file), how structured
//! annotations (links, hashtags, forward attribution) become canonical
//! markdown, how a small checkbox prefix grammar rewrites the body, and in
//! what order the sections of an entry are laid out.  The surrounding
//! program performs the actual file reads and writes and talks to the
//! transport layer; it hands this library plain values and takes plain
//! values back.

pub mod ack;
pub mod entities;
pub mod router;
pub mod session;
pub mod strutil;
pub mod textops;
pub mod time;
pub mod transform;
pub mod writer;
