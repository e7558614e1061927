//! Verified core of a code-driven presentation engine.
use vstd::prelude::*;

pub mod pixel;
pub mod raster;
pub mod hud;
pub mod font;
pub mod chars;
pub mod text;
pub mod ink;
pub mod svg;
pub mod animation;
pub mod effects;
pub mod letterbox;
pub mod navigation;
pub mod links;
pub mod hrefs;
pub mod colors;
pub mod watch_filter;
pub mod charts;
pub mod inspector;
pub mod chart_href;
pub mod compile;
pub mod player;
pub mod cli;
pub mod commands;
pub mod overlay;
pub mod marks;
pub mod display;
pub mod dsl;

verus! {

} // verus!
