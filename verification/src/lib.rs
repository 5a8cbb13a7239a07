pub mod command;
pub mod cover;
pub mod error;
pub mod input;
pub mod paths;
pub mod pattern;
pub mod plan;
pub mod schedule;
pub mod scratch;
pub mod search;
pub mod share;
pub mod tag;
pub mod text;
pub mod track;
pub mod trackinfo;
