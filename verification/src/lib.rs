//! Terminal 3D graphics: the integer side of the pipeline.
//!
//! The verified library holds the parts of the renderer that work on plain
//! values: the index buffer of a mesh and the primitives that generate one,
//! the text of Wavefront OBJ files, the screen-space bounding rectangle of a
//! triangle, the decoding of texture files, the day counts of orbits, and the
//! terminal printer that turns a frame into the bytes sent to the terminal.
pub mod options;
pub mod text;
pub mod texture;
pub mod mesh;
pub mod obj;
pub mod orbit;
pub mod printer;
pub mod raster;

pub use mesh::{MeshTopology, VertexIndices};
pub use options::ShadingMode;
pub use printer::{Color, Printer, PrinterType};
