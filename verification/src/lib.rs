pub mod build_state;
pub mod diagnostics;
pub mod matcher;
pub mod ui;
