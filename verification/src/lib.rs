pub mod asgi_http;
pub mod cookies;
pub mod core_handler;
pub mod cors;
pub mod fast_dispatch;
pub mod handler;
pub mod headers;
pub mod logging;
pub mod maps;
pub mod metadata;
pub mod middleware;
pub mod numbers;
pub mod permissions;
pub mod request;
pub mod request_pipeline;
pub mod response_builder;
pub mod response_meta;
pub mod router;
pub mod server;
pub mod state;
pub mod static_files;
pub mod streaming;
pub mod text;
pub mod type_coercion;
pub mod websocket;
