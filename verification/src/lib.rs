//! Verified core of a CAM tool: gcode post-processors, the text side of
//! the gcode preview and its line ↔ segment index, op-source selection,
//! setup resolution, pipeline diagnostics, and the textual parts of the
//! importers (DXF pair streams, SVG font headers, font names, layer
//! summaries).

pub mod strs;
pub mod cam;
pub mod linuxcnc;
pub mod hpgl;
pub mod geometry;
pub mod errors;
pub mod project;
pub mod pipeline;
pub mod selection;
pub mod setup;
pub mod warnings;
pub mod scan;
pub mod preview;
pub mod svg_font;
pub mod hatch;
pub mod text;
pub mod input;
pub mod layers;
pub mod op_loop;
