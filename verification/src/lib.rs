//! Frame building state and a pretty printer for trees, with their
//! behaviour stated as contracts and proved by Verus.

pub mod print_tree;
pub mod frame_builder;
pub mod render_pass;
