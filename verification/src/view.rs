//! What the views of the editor decide without drawing anything.

pub mod layout;
