//! A small terminal user-interface toolkit: grid geometry, CSS-like styling
//! and style sheets, a view tree with layout and rendering, event handling,
//! text measurement, and backends to print on, with their behaviour proved
//! by Verus.

pub mod vec2;
pub mod rect;
pub mod css;
pub mod style;
pub mod text;
pub mod event_result;
pub mod update_result;
pub mod util;
pub mod event;
pub mod event_filter;
pub mod view;
pub mod builder;
pub mod backend;
pub mod printer;
pub mod orientation;
pub mod widget;
pub mod view_wrappers;
pub mod view_proxys;
pub mod converters;
pub mod attribute;
pub mod events;
pub mod modifires;
pub mod state;
pub mod model;
pub mod element_view;
