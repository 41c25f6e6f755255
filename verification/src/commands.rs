pub mod add_regex_rule;
pub mod list;
pub mod set_slowmode;
pub mod setup;
