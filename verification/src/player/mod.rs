//! The decisions of the video player: its state, variant selection and track switching.

pub mod api;
pub mod events;
pub mod inner;
pub mod listeners;
pub mod regions;
pub mod requests;
pub mod runner;
pub mod settings;
pub mod switch;
pub mod track;
pub mod variant;
