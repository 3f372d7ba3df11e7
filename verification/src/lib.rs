//! Core logic of the PETool desktop agent: scheduling, tool permissions,
//! patch application, text normalisation and the data model shared with the
//! user interface.

pub mod text;
pub mod order;
pub mod scheduler;
pub mod config;
pub mod browser;
pub mod desktop;
pub mod patch;
pub mod permissions;
pub mod todo;
pub mod agent;
pub mod llm;
pub mod prompt;
pub mod memory;
pub mod web;
pub mod html;
pub mod web_tools;
pub mod workspace_tools;
pub mod tools;
pub mod provider;
pub mod paths;
pub mod timeline;
pub mod image;
pub mod catalog;
pub mod models;
pub mod turn;
pub mod desktop_actions;
pub mod process;
