//! A constraint-maintaining polygon: vertices, one optional constraint per
//! edge, and the single ordered pass that brings every edge back in line after
//! an edit.
pub mod arc;
pub mod constraint;
pub mod control;
pub mod edit;
pub mod level;
pub mod point;
pub mod polygon;
pub mod propagate;
pub mod raster;
pub mod relation;
pub mod scalar;
pub mod selection;
pub mod view;
