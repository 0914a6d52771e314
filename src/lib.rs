//! Country logger core: decoding of border outlines into polygons, fitting them onto
//! a viewport, deriving fill colours, and the plain state of the list, filter and info
//! widgets.
pub mod text;
pub mod geometry;
pub mod decoder;
pub mod registry;
pub mod projector;
pub mod models;
pub mod base_data;
pub mod style;
pub mod widgets;
pub mod importer;
pub mod app_state;
