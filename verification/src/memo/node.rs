//! Memos of selectors that pick nodes.
//!
//! A node is a cell whose value holds further cells. To a memo it is a cell
//! like any other: what is recorded is the node's own version, which changes
//! when the node itself is stamped and not when a cell below it is.

use crate::memo::cell::CellMemo;
use crate::memo::cell_slice::CellSliceMemo;
use crate::memo::option_cell::OptionCellMemo;
use crate::memo::option_cell_slice::OptionCellSliceMemo;
use vstd::prelude::*;

verus! {

/// The memo of a selector that picks one node.
pub type NodeMemo<S> = CellMemo<S>;

/// The memo of a selector that picks one node or none.
pub type OptionNodeMemo<S> = OptionCellMemo<S>;

/// The memo of a selector that picks a slice of nodes.
pub type NodeSliceMemo<S> = CellSliceMemo<S>;

/// The memo of a selector that picks a slice of nodes or nothing.
pub type OptionNodeSliceMemo<S> = OptionCellSliceMemo<S>;

} // verus!
