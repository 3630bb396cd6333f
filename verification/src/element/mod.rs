//! Elements that are not part of the map data.

pub mod canvas;
