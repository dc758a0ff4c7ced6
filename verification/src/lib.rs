//! A composable logging dispatch engine.
//!
//! Log records flow from call sites through a tree of dispatch nodes to a set
//! of output sinks.  Each node may filter records by severity, rewrap the
//! rendered text with its own formatter, and fan the record out to an ordered
//! list of children; a child may itself be a full dispatch tree.  A global
//! facade owns one sealed tree, is installed at most once, and gates every
//! call on the most permissive level enabled anywhere in the tree.
//!
//! Delivery is synchronous: a log call returns only after the record has been
//! offered, in registration order, to every sink it can reach.

pub mod level;
pub mod record;
pub mod format;
pub mod model;
pub mod sink;
pub mod dispatch;
pub mod logger;
pub mod hooks;
pub mod laws;
