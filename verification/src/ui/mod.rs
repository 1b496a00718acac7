pub mod format;
pub mod json_lines;
pub mod shards_grid;
pub mod layout;
pub mod sessions_view;
pub mod highlight;
pub mod popups;
pub mod cluster_editor;
pub mod cluster_detail;
pub mod link_popup;
pub mod view_popup;
pub mod help;
pub mod c3_results;
