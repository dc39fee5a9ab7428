//! The settings of the service.

use vstd::prelude::*;
use vstd::string::to_string_from_display_ensures;

verus! {

/// All settings.
#[derive(Clone, Debug)]
pub struct Settings {
    pub environment: String,
    pub application: ServerSettings,
    pub database: DatabaseSettings,
    pub kafka: KafkaSettings,
}

/// Where the web server listens and where the logs go.
#[derive(Clone, Debug)]
pub struct ServerSettings {
    pub host: String,
    pub port: u16,
    pub logs_directory: String,
}

/// How the database is reached.
#[derive(Clone, Debug)]
pub struct DatabaseSettings {
    pub username: String,
    pub password: String,
    pub port: u16,
    pub host: String,
    pub database_name: String,
    pub require_ssl: bool,
}

/// How the broker is reached.
#[derive(Clone, Debug)]
pub struct KafkaSettings {
    pub bootstrap_servers: String,
    pub group_id: String,
    pub session_timeout_ms: u16,
}

/// How far a connection to the database insists on encryption.
#[derive(Clone, Copy, Debug, PartialEq, Eq, Structural)]
pub enum SslMode {
    Prefer,
    Require,
}

/// What a connection to the database is opened with.
#[derive(Clone, Debug)]
pub struct ConnectOptions {
    pub host: String,
    pub username: String,
    pub password: String,
    pub port: u16,
    pub ssl_mode: SslMode,
    pub database: Option<String>,
}

impl ServerSettings {
    /// The address of the web server: the host, a colon, and the port in
    /// decimal.
    pub fn address(&self) -> (address: String)
        ensures
            exists|port: String| #[trigger]
                to_string_from_display_ensures::<u16>(&self.port, port) && address@ == self.host@
                    + ":"@ + port@,
    {
        let mut address = self.host.clone();
        address.push_str(":");
        let port = self.port.to_string();
        address.push_str(port.as_str());
        address
    }
}

impl DatabaseSettings {
    /// The options for a connection to the server, without a database:
    /// encryption is required where the settings say so and preferred
    /// otherwise.
    pub fn without_db_name(&self) -> (options: ConnectOptions)
        ensures
            options.host@ == self.host@,
            options.username@ == self.username@,
            options.password@ == self.password@,
            options.port == self.port,
            options.ssl_mode == if self.require_ssl {
                SslMode::Require
            } else {
                SslMode::Prefer
            },
            options.database is None,
    {
        let ssl_mode = if self.require_ssl {
            SslMode::Require
        } else {
            SslMode::Prefer
        };
        ConnectOptions {
            host: self.host.clone(),
            username: self.username.clone(),
            password: self.password.clone(),
            port: self.port,
            ssl_mode,
            database: None,
        }
    }

    /// The options for a connection to the database of the settings.
    pub fn with_db_name(&self) -> (options: ConnectOptions)
        ensures
            options.host@ == self.host@,
            options.username@ == self.username@,
            options.password@ == self.password@,
            options.port == self.port,
            options.ssl_mode == if self.require_ssl {
                SslMode::Require
            } else {
                SslMode::Prefer
            },
            options.database matches Some(name) && name@ == self.database_name@,
    {
        let mut options = self.without_db_name();
        options.database = Some(self.database_name.clone());
        options
    }
}

} // verus!
