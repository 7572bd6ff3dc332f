//! The shape-editing core of an image annotation canvas: exact geometry over integer canvas
//! coordinates, line and circle shapes, the point-by-point shape builder, and the editor that
//! turns pointer input into selection, dragging, deletion and construction.

pub mod builders;
pub mod editor;
pub mod maths;
pub mod point;
pub mod shapes;
