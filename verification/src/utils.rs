pub mod command_parser;
pub mod paging;
pub mod send_log;
pub mod text;
