//! Verified core of the alkeme terminal client for Arkime: the application's
//! enums and their cycling rules, the column tables of the viewer, the column
//! editors and layouts, time ranges, the documents the servers answer with, the
//! Cont3xt search and its results tree, the command line, and the text helpers
//! used by the screens.
pub mod app;
pub mod text;
pub mod json;
pub mod seqs;
pub mod ui;
pub mod cli;
