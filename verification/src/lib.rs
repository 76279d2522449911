//! Interactive directory-tree filtering, verified.
//!
//! The library holds the logic of a terminal tool that renders a directory
//! tree and live-filters it against a regex pattern: the in-memory tree and
//! its match-propagation marking, the raw-byte terminal input decoder, the
//! viewport renderer that produces each frame as a string, and the edit-state
//! transitions of the controller.  Terminal I/O, the filesystem walk and CLI
//! parsing live outside the library, in the binary that drives it.

pub mod events;
pub mod pattern;
pub mod tree;
pub mod mark;
pub mod decode;
pub mod strutil;
pub mod input;
pub mod render;
pub mod controller;
pub mod util;

pub use events::Direction;
pub use events::Event;
pub use events::Navigation;
