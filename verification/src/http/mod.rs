//! The HTTP side of the gateway: what each route asks of the remote server
//! and what it answers with.
//!
//! The functions here carry the names of the routes. They decide; the
//! caller talks to the remote server and to the client.

pub mod cors;
pub mod static_server;

use vstd::prelude::*;
use crate::error::{ConfigKey, GatewayError};
use crate::http::static_server::StaticServerWithEnvInjection;
use crate::sftp::stream::{AsyncSftp, StreamState};
use crate::sftp::{download_name, known_stat, RemoteStat, SftpConnection};
use crate::text::{append_chars, append_decimal, chars_of, decimal, pairs_view, string_of};

verus! {

/// The rank of the static route: it is tried after the routes of the API.
pub const STATIC_ROUTE_RANK: isize = 10;

/// The remote directory that `GET /list` lists: the root.
pub fn list_root() -> (directory: String)
    ensures
        directory@ == "/"@,
{
    "/".to_owned()
}

/// The remote directory that `GET /list/<path>` lists: `path`, or the root
/// where the path of the request is not valid Unicode.
pub fn list_sub_dir(path: Option<&str>) -> (directory: String)
    ensures
        directory@ == match path {
            Some(p) => p@,
            None => "/"@,
        },
{
    match path {
        Some(p) => p.to_owned(),
        None => "/".to_owned(),
    }
}

/// The answer to `GET /download/<path>`: a stream of the file's bytes, the
/// name to offer them under, and the length to declare.
pub struct FileResponse {
    pub read_source: AsyncSftp,
    pub file_name: String,
    pub file_size: u64,
}

/// The value of the `Content-Disposition` header for a download offered
/// under `name`.
pub open spec fn content_disposition(name: Seq<char>) -> Seq<char> {
    "attachment; filename=\""@ + name + "\""@
}

/// The headers of a download, as names and values.
pub open spec fn download_headers(name: Seq<char>, size: u64) -> Seq<(Seq<char>, Seq<char>)> {
    seq![
        ("Content-Disposition"@, content_disposition(name)),
        ("Content-Length"@, decimal(size as nat)),
    ]
}

impl FileResponse {
    /// The headers to send before the body.
    pub fn respond_to(&self) -> (headers: Vec<(String, String)>)
        ensures
            pairs_view(headers@) == download_headers(self.file_name@, self.file_size),
    {
        let mut disposition = chars_of("attachment; filename=\"");
        append_chars(&mut disposition, &chars_of(self.file_name.as_str()));
        append_chars(&mut disposition, &chars_of("\""));
        let mut length: Vec<char> = Vec::new();
        append_decimal(&mut length, self.file_size);
        let mut headers: Vec<(String, String)> = Vec::new();
        headers.push(("Content-Disposition".to_owned(), string_of(&disposition)));
        headers.push(("Content-Length".to_owned(), string_of(&length)));
        assert(pairs_view(headers@) =~= download_headers(self.file_name@, self.file_size));
        headers
    }
}

/// The answer to `GET /download/<path>`, once the remote file at `path`
/// was opened and `stat` is its metadata, if the server gave any. The
/// declared length is the size that the server reports, or 0 if it reports
/// none.
pub fn download_file(connection: &SftpConnection, path: &str, stat: Option<RemoteStat>) -> (response:
    FileResponse)
    ensures
        response.read_source@ == StreamState::Idle,
        response.file_name@ == download_name(path@),
        response.file_size == known_stat(stat).declared_length(),
{
    let (read_source, file_name, file_stat) = connection.download_file(path, stat);
    FileResponse {
        read_source,
        file_name,
        file_size: match file_stat.size {
            Some(size) => size,
            None => 0,
        },
    }
}

/// The answer to `GET /instance/info`.
pub struct InfoResponse {
    /// The remote server, as `host:port`.
    pub host: String,
}

/// The answer to `GET /instance/info`: the remote server that the gateway
/// is configured for.
pub fn instance_info(connection: SftpConnection) -> (info: InfoResponse)
    ensures
        info.host@ == connection@.hostname,
{
    InfoResponse { host: connection.connected_to() }
}

/// Where the routes are mounted.
pub struct Mounts {
    /// The prefix of the API's routes.
    pub api: String,
    /// The prefix of the static route.
    pub static_files: String,
    /// The responder behind the static route.
    pub static_server: StaticServerWithEnvInjection,
}

/// The directory that holds the static assets.
pub open spec fn static_root() -> Seq<char> {
    "static"@
}

/// The mounts that the configuration describes: both prefixes are
/// required, and the one of the API is looked at first.
pub fn rocket(api_prefix: Option<&str>, static_prefix: Option<&str>) -> (mounts: Result<
    Mounts,
    GatewayError,
>)
    ensures
        api_prefix is None ==> mounts == Err::<Mounts, GatewayError>(
            GatewayError::ConfigurationMissing(ConfigKey::ApiPrefix),
        ),
        api_prefix is Some && static_prefix is None ==> mounts == Err::<Mounts, GatewayError>(
            GatewayError::ConfigurationMissing(ConfigKey::StaticPrefix),
        ),
        api_prefix is Some && static_prefix is Some ==> mounts is Ok && mounts->Ok_0.api@
            == api_prefix->0@ && mounts->Ok_0.static_files@ == static_prefix->0@
            && mounts->Ok_0.static_server@ == static_root(),
{
    let api = match api_prefix {
        Some(p) => p,
        None => {
            return Err(GatewayError::ConfigurationMissing(ConfigKey::ApiPrefix));
        },
    };
    let static_files = match static_prefix {
        Some(p) => p,
        None => {
            return Err(GatewayError::ConfigurationMissing(ConfigKey::StaticPrefix));
        },
    };
    Ok(
        Mounts {
            api: api.to_owned(),
            static_files: static_files.to_owned(),
            static_server: StaticServerWithEnvInjection::from("static".to_owned()),
        },
    )
}

} // verus!
