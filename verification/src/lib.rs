//! Checklist companion: the task-file format with its active-task rules,
//! the configuration of a run, and the life cycle of the background service.

pub mod app_data;
pub mod config;
pub mod error;
pub mod requests;
pub mod service;
pub mod task_format;
pub mod task_laws;
pub mod text;
