//! The ways a request to the gateway can fail, and how each is reported.

use vstd::prelude::*;

verus! {

/// A value the gateway reads from its configuration.
#[derive(Clone, Copy, Debug, PartialEq, Eq, Structural)]
pub enum ConfigKey {
    Hostname,
    Port,
    Username,
    Password,
    ApiPrefix,
    StaticPrefix,
}

/// Why an operation of the gateway failed.
#[derive(Clone, Copy, Debug, PartialEq, Eq, Structural)]
pub enum GatewayError {
    /// A required configuration value is absent. Fatal at startup.
    ConfigurationMissing(ConfigKey),
    /// The remote server cannot be reached, or the handshake with it failed.
    ConnectionFailure,
    /// The remote server rejected the credentials.
    AuthenticationFailure,
    /// The path to list or to open does not exist on the remote server.
    RemotePathNotFound,
    /// Reading from the remote server failed.
    RemoteReadFailure,
    /// A static asset does not exist. The static responder does not report
    /// this: it answers with the root's index instead.
    StaticAssetNotFound,
    /// A static asset exists but cannot be read.
    StaticAssetUnreadable,
}

impl ConfigKey {
    /// The name of the environment variable that holds this value.
    pub open spec fn variable_name(self) -> Seq<char> {
        match self {
            ConfigKey::Hostname => "SFTP_HOSTNAME"@,
            ConfigKey::Port => "SFTP_PORT"@,
            ConfigKey::Username => "SFTP_USERNAME"@,
            ConfigKey::Password => "SFTP_PASSWORD"@,
            ConfigKey::ApiPrefix => "BE_PREFIX"@,
            ConfigKey::StaticPrefix => "STATIC_PREFIX"@,
        }
    }

    /// The name of the environment variable that holds this value.
    pub fn variable(&self) -> (name: String)
        ensures
            name@ == self.variable_name(),
    {
        match self {
            ConfigKey::Hostname => "SFTP_HOSTNAME".to_owned(),
            ConfigKey::Port => "SFTP_PORT".to_owned(),
            ConfigKey::Username => "SFTP_USERNAME".to_owned(),
            ConfigKey::Password => "SFTP_PASSWORD".to_owned(),
            ConfigKey::ApiPrefix => "BE_PREFIX".to_owned(),
            ConfigKey::StaticPrefix => "STATIC_PREFIX".to_owned(),
        }
    }
}

impl GatewayError {
    /// The HTTP status that reports this failure: 404 for what does not
    /// exist, 502 for what went wrong between the gateway and the remote
    /// server, 500 for what went wrong in the gateway itself.
    pub open spec fn status_code(self) -> u16 {
        match self {
            GatewayError::ConfigurationMissing(_) => 500,
            GatewayError::ConnectionFailure => 502,
            GatewayError::AuthenticationFailure => 502,
            GatewayError::RemotePathNotFound => 404,
            GatewayError::RemoteReadFailure => 502,
            GatewayError::StaticAssetNotFound => 404,
            GatewayError::StaticAssetUnreadable => 500,
        }
    }

    /// The HTTP status that reports this failure.
    pub fn status(&self) -> (code: u16)
        ensures
            code == self.status_code(),
    {
        match self {
            GatewayError::ConfigurationMissing(_) => 500,
            GatewayError::ConnectionFailure => 502,
            GatewayError::AuthenticationFailure => 502,
            GatewayError::RemotePathNotFound => 404,
            GatewayError::RemoteReadFailure => 502,
            GatewayError::StaticAssetNotFound => 404,
            GatewayError::StaticAssetUnreadable => 500,
        }
    }

    /// What a client is told about this failure. It names no internal
    /// detail but the configuration value that is missing.
    pub open spec fn message_text(self) -> Seq<char> {
        match self {
            GatewayError::ConfigurationMissing(key) => key.variable_name() + " not set"@,
            GatewayError::ConnectionFailure => "cannot connect to the remote file server"@,
            GatewayError::AuthenticationFailure => "the remote file server rejected the credentials"@,
            GatewayError::RemotePathNotFound => "no such path on the remote file server"@,
            GatewayError::RemoteReadFailure => "reading from the remote file server failed"@,
            GatewayError::StaticAssetNotFound => "no such static asset"@,
            GatewayError::StaticAssetUnreadable => "the static asset cannot be read"@,
        }
    }

    /// What a client is told about this failure.
    pub fn message(&self) -> (text: String)
        ensures
            text@ == self.message_text(),
    {
        match self {
            GatewayError::ConfigurationMissing(key) => {
                let mut text = key.variable();
                text.append(" not set");
                text
            },
            GatewayError::ConnectionFailure => "cannot connect to the remote file server".to_owned(),
            GatewayError::AuthenticationFailure => {
                "the remote file server rejected the credentials".to_owned()
            },
            GatewayError::RemotePathNotFound => "no such path on the remote file server".to_owned(),
            GatewayError::RemoteReadFailure => "reading from the remote file server failed".to_owned(),
            GatewayError::StaticAssetNotFound => "no such static asset".to_owned(),
            GatewayError::StaticAssetUnreadable => "the static asset cannot be read".to_owned(),
        }
    }
}

} // verus!
