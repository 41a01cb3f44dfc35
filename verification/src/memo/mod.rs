//! Memos: cached selectors that detect change by comparing fingerprints.
//!
//! A memo holds a selector, the identity of the store it was built against
//! and the fingerprint of what the selector last picked. The fingerprint of
//! one cell is its version, that of an optional cell is its version if there
//! is one, and that of several cells is a hash over their versions in order:
//! the same cells in another order count as a change.

pub mod both;
pub mod cell;
pub mod cell_slice;
pub mod fingerprint;
pub mod iter;
pub mod memo;
pub mod node;
pub mod option_cell;
pub mod option_cell_slice;
pub mod owned;
pub mod value_resolver;

pub use self::both::Both;
pub use self::cell::CellMemo;
pub use self::cell_slice::CellSliceMemo;
pub use self::iter::CellIterMemo;
pub use self::memo::Memo;
pub use self::memo::Refresh;
pub use self::node::NodeMemo;
pub use self::node::NodeSliceMemo;
pub use self::node::OptionNodeMemo;
pub use self::node::OptionNodeSliceMemo;
pub use self::option_cell::OptionCellMemo;
pub use self::option_cell::OptionCellResolver;
pub use self::option_cell_slice::OptionCellSliceMemo;
pub use self::owned::OwnedMemo;
pub use self::value_resolver::ValueResolver;
