pub mod auth;
pub mod flow;
pub mod info;
pub mod misc;
pub mod text;
pub mod submit;
pub mod challenge;
