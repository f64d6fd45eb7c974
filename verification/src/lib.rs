//! Decision logic of the Kadr installer's user interface: what the welcome
//! screen shows and offers, how an installation's progress is recorded, what
//! the final screen says, and how sizes and patch notes are rendered as text.

pub mod flow;
pub mod size;
pub mod text;
pub mod theme;
pub mod welcome;
