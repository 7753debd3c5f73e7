//! Asset-management core of a real-time engine.
//!
//! The library identifies, loads, caches, reference-counts, garbage-collects
//! and hot-reloads typed content. Assets are named by a URI (a namespaced
//! relative path or a UUID); an identity is derived from the URI and a type
//! tag; a load pipeline resolves recursive dependencies and queues produced
//! values; a commit publishes queued values into shared storage; an
//! incremental garbage collector unloads entries without strong holders; and
//! a change-notification bridge maps edited paths back to asset identities.

pub mod assoc;
pub mod event;
pub mod id;
pub mod input;
pub mod loader;
pub mod path;
pub mod render;
pub mod server;
pub mod storage;
pub mod text;
pub mod tree;
pub mod uri;
pub mod util;
pub mod value;
