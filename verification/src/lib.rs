//! Picks fast proxy nodes out of public subscription lists: the verified core.

pub mod codecs;
pub mod conf;
pub mod decimal;
pub mod feeds;
pub mod json;
pub mod json_text;
pub mod launcher;
pub mod node;
pub mod pac;
pub mod pipeline;
pub mod proto;
pub mod qqwry;
pub mod sources;
pub mod text;
pub mod tools;
pub mod web;
