//! Small verified building blocks: a cons list, tagged unions with their
//! descriptions, control-flow walkthroughs, bounds-checked lookups and
//! integer text rendering.
pub mod print;
pub mod custom_types;
pub mod types;
pub mod flow_of_control;
pub mod var_bindings;
