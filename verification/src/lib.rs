pub mod actions;
pub mod ai_ops;
pub mod ai_text;
pub mod clock;
pub mod config;
pub mod discovery;
pub mod display;
pub mod fs_scan;
pub mod input;
pub mod interact;
pub mod io;
pub mod layout;
pub mod logs;
pub mod model;
pub mod paths;
pub mod preview;
pub mod preview_ops;
pub mod prompts;
pub mod rows;
pub mod scope;
pub mod scope_ops;
pub mod scrollbar;
pub mod stage;
pub mod state;
pub mod moves;
pub mod naming;
pub mod naming_ops;
pub mod naming_edit;
pub mod nav;
pub mod strs;
pub mod text;
pub mod textset;
pub mod theme;
pub mod tree;
pub mod tree_ops;
pub mod vocab;
pub mod workers;
