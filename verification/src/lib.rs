//! A wireframe cube for text terminals.
//!
//! The crate holds the integer side of a small 3D-to-2D pipeline: the cube's
//! corners and edges, the walk along an edge, the depth-buffered character
//! grid that samples are plotted into, and the text of a finished frame.
//! Rotation and perspective division are left to the caller, who hands each
//! projected sample over as a column, a row and a reciprocal depth.

pub mod cube;
pub mod frame;
pub mod line;
pub mod screen;
