//! Gameplay core of a terminal typing trainer: passage segmentation, input
//! matching, live score keeping and passage history.

pub mod actions;
pub mod chance;
pub mod config;
pub mod game;
pub mod graphs;
pub mod info;
pub mod lang_pack;
pub mod passage_controller;
pub mod stats;
pub mod term_check;
pub mod text;
