//! A notebook editor without its window: the cells of a notebook in their order, the kernel that
//! runs them, and the file that holds them.
//!
//! A host draws what the editor shows, hands it what the user does and what the kernel says, and
//! reads and writes files for it. What the editor makes of that is decided here.

use vstd::prelude::*;

pub mod arranging_laws;
pub mod cell;
pub mod cell_laws;
pub mod completion;
pub mod completion_laws;
pub mod controls;
pub mod document;
pub mod editor;
pub mod events;
pub mod execution;
pub mod file_laws;
pub mod id_map;
pub mod ids;
pub mod item;
pub mod json;
pub mod kernel;
pub mod kernel_laws;
pub mod laws;
pub mod message;
pub mod notebook;
pub mod persistence;
pub mod registration;
pub mod running_laws;
pub mod session;
pub mod state;
pub mod text;

verus! {

} // verus!
