pub mod raw_json;
pub mod xtream_parser;
