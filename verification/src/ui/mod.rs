pub mod focus;
pub mod icon_style;
pub mod layout;
pub mod path_display;
pub mod path_relativize;
pub mod session_header;
pub mod help;
pub mod status_bar;
pub mod list;
pub mod top_bar;
pub mod preview;
