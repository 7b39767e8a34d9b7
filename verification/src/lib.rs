//! Request planning and validation for a local GIS tile-conversion server.
pub mod catalog;
pub mod commands;
pub mod files;
pub mod installers;
pub mod jobs;
pub mod text;
pub mod tiles11;
pub mod tools;
