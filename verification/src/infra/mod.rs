mod client_error;
mod config;

pub use client_error::{ClientError, ErrorResponse};
pub use config::{
    ConnectOptions, DatabaseSettings, KafkaSettings, ServerSettings, Settings, SslMode,
};
