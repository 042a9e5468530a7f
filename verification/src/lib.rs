pub mod arith;
pub mod catalog;
pub mod decimal;
pub mod details;
pub mod duration;
pub mod facts;
pub mod json;
pub mod pipeline;
pub mod presentation;
pub mod provider;
pub mod stats;
pub mod text;
