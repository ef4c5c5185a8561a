use vstd::prelude::*;

pub mod text;
pub mod types;
pub mod parse;
pub mod parser;
pub mod variant;
pub mod shorthand;
pub mod merge;
pub mod naming;
pub mod normalize;
pub mod index;
pub mod bundle;
pub mod plugin_map;
pub mod num;
pub mod theme_values;
pub mod palette;
pub mod value_map;
pub mod converter;
pub mod bundler;
pub mod context;
pub mod collector;
pub mod html;
pub mod element_tree;
pub mod transform;
pub mod dimension;
