//! Version resolution and channel inference for an installation that is tracked
//! in Git.
//!
//! Tag names, refs and `git describe` output are normalized ([`normalize`]) and
//! read by two grammars into versions ([`version`], [`grammar`]), which are
//! totally ordered ([`precedence`]). The shape of a version tells the channel of
//! an installation ([`channel`]); the latest version for a channel is resolved
//! from two candidate lists ([`resolve`]) that are read out of what Git prints
//! ([`tags`]). The working tree is moved to a version by a cascade of strategies
//! ([`cascade`]). The rules on the address of the repository are in [`giturl`].
//!
//! Nothing here runs Git or touches the file system: every function takes text
//! and plain values, and gives plain values back.

pub mod cascade;
pub mod channel;
pub mod giturl;
pub mod grammar;
pub mod normalize;
pub mod precedence;
pub mod resolve;
pub mod tags;
pub mod text;
pub mod version;

pub use channel::Channel;
pub use normalize::normalize;
pub use resolve::resolve;
pub use version::Version;
