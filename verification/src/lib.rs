//! Project, screen and pipeline-status logic of a terminal front end that
//! drives a research-paper writing pipeline.

pub mod text;
pub mod json;
pub mod paths;
pub mod app;
pub mod order;
pub mod screen_select;
pub mod screen_output;
pub mod screen_input;
pub mod style;
pub mod screen_figures;
pub mod pipeline;
pub mod keys;
pub mod draw;
pub mod pipeline_view;
pub mod stage_view;
