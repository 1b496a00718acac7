pub mod types;
pub mod columns;
pub mod cont3xt;
pub mod parliament;
pub mod wise;
pub mod time_range;
pub mod viewer;
pub mod stats_columns;
pub mod session_columns;
pub mod c3_tree;
pub mod viewer_data;
pub mod shards;
pub mod c3_search;
pub mod run_loop;
