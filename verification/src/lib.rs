//! Replays a vector path, given as a stream of drawing commands in a source
//! coordinate space, as pointer-device actions in a destination coordinate
//! space. Coordinates are exact rational scalars, so the affine mapping
//! between the two spaces and the interpreter's bookkeeping are verified
//! exactly; the surrounding program converts device units at the boundary.

pub mod my_error;
pub mod painter;
pub mod rational;
pub mod rect;
pub mod point;
