//! The logic of a workspace dock for macOS: which apps are installed and
//! how they are listed, named and cached, where their icons come from and
//! are kept, and how the dock window and the system Dock are arranged.
//! Every function here carries a proved contract; file, process and window
//! I/O stays with the caller, which hands in what it read and carries out what
//! these functions decide.
use vstd::prelude::*;

pub mod text;
pub mod paths;
pub mod bundle;
pub mod codec;
pub mod icons;
pub mod icon_fetch;
pub mod metadata;
pub mod catalog;
pub mod discovery;
pub mod dock;
pub mod laws;
