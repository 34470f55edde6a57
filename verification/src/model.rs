pub mod api_proxy;
pub mod config;
pub mod mapping;
pub mod model_config;
pub mod model_m3u;
