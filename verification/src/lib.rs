//! A versioned, scope-gated data store with incremental change propagation.
//!
//! A [`store::Store`] owns a data graph. Readers see it inside a read scope,
//! the one writer changes it inside an update scope, and every cell of the
//! graph that the writer touches is stamped with a fresh version from the
//! store's counter ([`versioned_cell::VersionedCell`]). When the writer is
//! done the store signals its subscribers ([`on_update::OnUpdate`]). A
//! subscriber that holds memos ([`memo::Memo`]) refreshes them and learns,
//! by comparing version fingerprints rather than values, whether what it
//! selected has changed; a [`watcher::Watcher`] does so for an ordered
//! collection of memos and yields only on change.
//!
//! The library is verified: each function's contract says what it returns
//! and changes, over the views that the types' `spec` functions give. The
//! laws that tie the parts together are stated as `proof` functions next to
//! the types they speak of.

pub mod broadcast;
pub mod context;
pub mod memo;
pub mod on_update;
pub mod store;
pub mod versioned_cell;
pub mod watcher;

pub use crate::broadcast::Broadcaster;
pub use crate::broadcast::Listener;
pub use crate::on_update::OnUpdate;
pub use crate::on_update::Poll;
pub use crate::on_update::UpdateBroadcaster;
pub use crate::store::ReadContext;
pub use crate::store::Store;
pub use crate::store::StoreIdProvider;
pub use crate::store::UpdateContext;
pub use crate::versioned_cell::VersionedCell;
pub use crate::watcher::Watcher;
