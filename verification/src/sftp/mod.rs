//! The remote file server as the gateway sees it: where it is, what it
//! reports of its directories and files, and how a session with it is set up.
//!
//! Nothing here talks to the network. The caller does, and hands over what
//! the remote server answered.

pub mod stream;

use vstd::prelude::*;
use crate::error::{ConfigKey, GatewayError};
use crate::paths::{compute_file_name, compute_rooted, file_name, rooted};
pub use crate::sftp::stream::AsyncSftp;
use crate::text::{chars_of, string_of};

verus! {

/// The metadata of a remote file, as far as the gateway reads it.
#[derive(Clone, Copy, Debug, PartialEq, Eq, Structural)]
pub struct RemoteStat {
    /// The size of the file in bytes, if the server reports one.
    pub size: Option<u64>,
    /// The mode of the file (type and permission bits), if the server
    /// reports one.
    pub perm: Option<u32>,
}

/// The bits of a mode that hold the file's type.
pub const MODE_TYPE_MASK: u32 = 0o170000;

/// The file type of a directory.
pub const MODE_DIRECTORY: u32 = 0o040000;

impl RemoteStat {
    /// The metadata is that of a directory: the type bits of its mode say
    /// so. A mode that was not reported counts as 0.
    pub open spec fn is_directory(self) -> bool {
        let mode = match self.perm {
            Some(mode) => mode,
            None => 0u32,
        };
        (mode & MODE_TYPE_MASK) == MODE_DIRECTORY
    }

    /// Whether the metadata is that of a directory.
    pub fn is_dir(&self) -> (dir: bool)
        ensures
            dir == self.is_directory(),
    {
        stat_is_dir(*self)
    }

    /// The length to declare for a download of this file: its size, or 0
    /// if the server reports none. A declared length of 0 therefore means
    /// "unknown", not "empty".
    pub open spec fn declared_length(self) -> u64 {
        match self.size {
            Some(size) => size,
            None => 0,
        }
    }
}

/// `ssh2::FileStat::is_dir`, on metadata with the given size and mode: it
/// takes the mode (0 if there is none), keeps its file type bits and
/// compares them with the type of a directory.
#[verifier::external_body]
fn stat_is_dir(stat: RemoteStat) -> (dir: bool)
    ensures
        dir == stat.is_directory(),
{
    let raw = ssh2::FileStat {
        size: stat.size,
        uid: None,
        gid: None,
        perm: stat.perm,
        atime: None,
        mtime: None,
    };
    raw.is_dir()
}

/// One entry of a remote directory, as the server reports it.
pub struct RemoteEntry {
    /// The path of the entry; `None` if the server's name for it is not
    /// valid Unicode.
    pub path: Option<String>,
    pub stat: RemoteStat,
}

/// A reported entry, its path as text.
pub struct EntryView {
    pub path: Option<Seq<char>>,
    pub stat: RemoteStat,
}

impl View for RemoteEntry {
    type V = EntryView;

    open spec fn view(&self) -> EntryView {
        EntryView {
            path: match self.path {
                Some(p) => Some(p@),
                None => None,
            },
            stat: self.stat,
        }
    }
}

/// One entry of a listing: an absolute path, and whether it is a directory.
pub struct SftpElement {
    path: String,
    is_directory: bool,
}

/// A listing entry, its path as text.
pub struct ElementView {
    pub path: Seq<char>,
    pub is_directory: bool,
}

impl View for SftpElement {
    type V = ElementView;

    closed spec fn view(&self) -> ElementView {
        ElementView { path: self.path@, is_directory: self.is_directory }
    }
}

/// The listing entry for what the server reported: the reported path made
/// absolute (a path that is not valid Unicode counts as empty), and
/// whether the metadata is that of a directory.
pub open spec fn listed(entry: EntryView) -> ElementView {
    ElementView {
        path: rooted(
            match entry.path {
                Some(p) => p,
                None => Seq::empty(),
            },
        ),
        is_directory: entry.stat.is_directory(),
    }
}

impl SftpElement {
    /// Every element's path starts with `/`.
    #[verifier::type_invariant]
    spec fn path_is_absolute(self) -> bool {
        self.path@.len() > 0 && self.path@[0] == '/'
    }

    /// The listing entry for what the server reported.
    pub fn from_remote(entry: &RemoteEntry) -> (element: SftpElement)
        ensures
            element@ == listed(entry@),
    {
        let reported = match &entry.path {
            Some(p) => chars_of(p.as_str()),
            None => Vec::new(),
        };
        SftpElement {
            path: string_of(&compute_rooted(&reported)),
            is_directory: entry.stat.is_dir(),
        }
    }

    /// The absolute path of the entry.
    pub fn path(&self) -> (path: &String)
        ensures
            path@ == self@.path,
            path@.len() > 0,
            path@[0] == '/',
    {
        proof {
            use_type_invariant(self);
        }
        &self.path
    }

    /// Whether the entry is a directory.
    pub fn is_directory(&self) -> (dir: bool)
        ensures
            dir == self@.is_directory,
    {
        self.is_directory
    }
}

/// How long to wait for the remote server to connect, to shake hands or
/// to answer a read, in milliseconds. A server that does not respond must
/// not hold up a request for longer.
pub const REMOTE_TIMEOUT_MS: u32 = 30000;

/// The steps that set up a session with the remote server, in order.
#[derive(Clone, Copy, Debug, PartialEq, Eq, Structural)]
pub enum ConnectStage {
    /// Resolve the address of the server.
    Resolve,
    /// Open a connection to it.
    Connect,
    /// Perform the protocol handshake.
    Handshake,
    /// Authenticate with user name and password.
    Authenticate,
    /// Obtain the file transfer session.
    OpenChannel,
    /// The session is set up.
    Ready,
}

impl ConnectStage {
    /// The step after this one.
    pub open spec fn next(self) -> ConnectStage {
        match self {
            ConnectStage::Resolve => ConnectStage::Connect,
            ConnectStage::Connect => ConnectStage::Handshake,
            ConnectStage::Handshake => ConnectStage::Authenticate,
            ConnectStage::Authenticate => ConnectStage::OpenChannel,
            ConnectStage::OpenChannel => ConnectStage::Ready,
            ConnectStage::Ready => ConnectStage::Ready,
        }
    }

    /// What it means that this step failed: rejected credentials where the
    /// step is the authentication, a failed connection otherwise.
    pub open spec fn failure(self) -> GatewayError {
        match self {
            ConnectStage::Authenticate => GatewayError::AuthenticationFailure,
            _ => GatewayError::ConnectionFailure,
        }
    }

    /// Where the set-up stands after `stage` succeeded or failed. Nothing
    /// is retried: a failed step ends the set-up. In `Ready` nothing is
    /// left to fail.
    pub open spec fn after(stage: ConnectStage, succeeded: bool) -> Result<
        ConnectStage,
        GatewayError,
    > {
        if succeeded || stage == ConnectStage::Ready {
            Ok(stage.next())
        } else {
            Err(stage.failure())
        }
    }
}

/// An error code of the remote side: of the session, or of the file
/// transfer protocol spoken over it.
#[derive(Clone, Copy, Debug, PartialEq, Eq, Structural)]
pub enum RemoteErrorCode {
    Session(i32),
    Sftp(i32),
}

/// The session's code for rejected credentials.
pub const SESSION_AUTHENTICATION_FAILED: i32 = -18;

/// The file transfer protocol's code for a file that does not exist.
pub const SFTP_NO_SUCH_FILE: i32 = 2;

/// The file transfer protocol's code for a path that does not exist.
pub const SFTP_NO_SUCH_PATH: i32 = 10;

impl RemoteErrorCode {
    /// What a failed listing, open or read means, by its error code: the
    /// path does not exist where the protocol says so, and the read failed
    /// on any other code of the protocol; the credentials were rejected
    /// where the session says so, and the connection failed on any other
    /// code of the session.
    pub open spec fn meaning(self) -> GatewayError {
        match self {
            RemoteErrorCode::Sftp(code) => if code == SFTP_NO_SUCH_FILE || code
                == SFTP_NO_SUCH_PATH {
                GatewayError::RemotePathNotFound
            } else {
                GatewayError::RemoteReadFailure
            },
            RemoteErrorCode::Session(code) => if code == SESSION_AUTHENTICATION_FAILED {
                GatewayError::AuthenticationFailure
            } else {
                GatewayError::ConnectionFailure
            },
        }
    }

    /// What a failed listing, open or read with this code means.
    pub fn classify(&self) -> (error: GatewayError)
        ensures
            error == self.meaning(),
    {
        match self {
            RemoteErrorCode::Sftp(code) => if *code == SFTP_NO_SUCH_FILE || *code
                == SFTP_NO_SUCH_PATH {
                GatewayError::RemotePathNotFound
            } else {
                GatewayError::RemoteReadFailure
            },
            RemoteErrorCode::Session(code) => if *code == SESSION_AUTHENTICATION_FAILED {
                GatewayError::AuthenticationFailure
            } else {
                GatewayError::ConnectionFailure
            },
        }
    }
}

/// Where the remote server is and how to log in: resolved once from the
/// configuration, never changed afterwards.
pub struct SftpConnection {
    hostname: String,
    username: String,
    password: String,
}

/// A connection as texts.
pub struct ConnectionView {
    /// Host and port, as `host:port`.
    pub hostname: Seq<char>,
    pub username: Seq<char>,
    pub password: Seq<char>,
}

impl View for SftpConnection {
    type V = ConnectionView;

    closed spec fn view(&self) -> ConnectionView {
        ConnectionView {
            hostname: self.hostname@,
            username: self.username@,
            password: self.password@,
        }
    }
}

/// The port of the remote server where the configuration names none.
pub open spec fn default_port() -> Seq<char> {
    "22"@
}

/// Host and port as one address: `host:port`.
pub open spec fn address(host: Seq<char>, port: Option<Seq<char>>) -> Seq<char> {
    host.push(':') + match port {
        Some(p) => p,
        None => default_port(),
    }
}

/// The connection that the configuration describes, or the first required
/// value that it lacks: host, user name, password, in this order. The port
/// is not required.
pub open spec fn configured(
    hostname: Option<Seq<char>>,
    port: Option<Seq<char>>,
    username: Option<Seq<char>>,
    password: Option<Seq<char>>,
) -> Result<ConnectionView, GatewayError> {
    if hostname is None {
        Err(GatewayError::ConfigurationMissing(ConfigKey::Hostname))
    } else if username is None {
        Err(GatewayError::ConfigurationMissing(ConfigKey::Username))
    } else if password is None {
        Err(GatewayError::ConfigurationMissing(ConfigKey::Password))
    } else {
        Ok(
            ConnectionView {
                hostname: address(hostname->0, port),
                username: username->0,
                password: password->0,
            },
        )
    }
}

/// The name under which a download of `path` is offered: the name of the
/// file that `path` ends in, or `installer.exe` if it ends in none.
pub open spec fn download_name(path: Seq<char>) -> Seq<char> {
    match file_name(path) {
        Some(name) => name,
        None => "installer.exe"@,
    }
}

/// The metadata to go by when the server gave `stat`, or gave none: then
/// neither size nor mode is reported.
pub open spec fn known_stat(stat: Option<RemoteStat>) -> RemoteStat {
    match stat {
        Some(stat) => stat,
        None => RemoteStat { size: None, perm: None },
    }
}

/// An optional text.
pub open spec fn option_view(s: Option<&str>) -> Option<Seq<char>> {
    match s {
        Some(s) => Some(s@),
        None => None,
    }
}

impl SftpConnection {
    /// The address of the remote server, as `host:port`.
    pub fn connected_to(self) -> (address: String)
        ensures
            address@ == self@.hostname,
    {
        self.hostname
    }

    /// The connection that the configuration describes, where each value is
    /// that of its environment variable, or `None` if the variable is not
    /// set.
    pub fn from_env_config(
        hostname: Option<&str>,
        port: Option<&str>,
        username: Option<&str>,
        password: Option<&str>,
    ) -> (connection: Result<Self, GatewayError>)
        ensures
            match connection {
                Ok(c) => Ok::<ConnectionView, GatewayError>(c@),
                Err(e) => Err(e),
            } == configured(
                option_view(hostname),
                option_view(port),
                option_view(username),
                option_view(password),
            ),
    {
        let host = match hostname {
            Some(h) => h,
            None => {
                return Err(GatewayError::ConfigurationMissing(ConfigKey::Hostname));
            },
        };
        let user = match username {
            Some(u) => u,
            None => {
                return Err(GatewayError::ConfigurationMissing(ConfigKey::Username));
            },
        };
        let pass = match password {
            Some(p) => p,
            None => {
                return Err(GatewayError::ConfigurationMissing(ConfigKey::Password));
            },
        };
        let mut address = chars_of(host);
        address.push(':');
        match port {
            Some(p) => crate::text::append_chars(&mut address, &chars_of(p)),
            None => crate::text::append_chars(&mut address, &chars_of("22")),
        }
        Ok(SftpConnection::new(string_of(&address).as_str(), user, pass))
    }

    /// A connection to the server at `hostname` (host and port, as
    /// `host:port`) with the given credentials.
    pub fn new(hostname: &str, username: &str, password: &str) -> (connection: Self)
        ensures
            connection@ == (ConnectionView {
                hostname: hostname@,
                username: username@,
                password: password@,
            }),
    {
        SftpConnection {
            hostname: hostname.to_owned(),
            username: username.to_owned(),
            password: password.to_owned(),
        }
    }

    /// Host and port of the remote server, as `host:port`.
    pub fn hostname(&self) -> (hostname: &String)
        ensures
            hostname@ == self@.hostname,
    {
        &self.hostname
    }

    /// The user name to log in with.
    pub fn username(&self) -> (username: &String)
        ensures
            username@ == self@.username,
    {
        &self.username
    }

    /// The password to log in with.
    pub fn password(&self) -> (password: &String)
        ensures
            password@ == self@.password,
    {
        &self.password
    }

    /// The listing for what the remote server reported of a directory: one
    /// element for each entry, in the order of the entries. Every path in
    /// it starts with `/`, and an empty directory gives an empty listing.
    pub fn file_list(&self, entries: &Vec<RemoteEntry>) -> (list: Vec<SftpElement>)
        ensures
            list@.len() == entries@.len(),
            forall|i: int| 0 <= i < list@.len() ==> (#[trigger] list@[i])@ == listed(entries@[i]@),
            forall|i: int|
                0 <= i < list@.len() ==> (#[trigger] list@[i])@.path.len() > 0 && list@[i]@.path[0]
                    == '/',
            entries@.len() == 0 ==> list@.len() == 0,
    {
        let mut list: Vec<SftpElement> = Vec::new();
        let mut i: usize = 0;
        while i < entries.len()
            invariant
                i <= entries.len(),
                list@.len() == i,
                forall|j: int| 0 <= j < i ==> (#[trigger] list@[j])@ == listed(entries@[j]@),
            decreases entries.len() - i,
        {
            list.push(SftpElement::from_remote(&entries[i]));
            i += 1;
        }
        list
    }

    /// One step in setting up a session: where the set-up stands after
    /// `stage` succeeded or failed.
    pub fn connect_to(&self, stage: ConnectStage, succeeded: bool) -> (next: Result<
        ConnectStage,
        GatewayError,
    >)
        ensures
            next == ConnectStage::after(stage, succeeded),
    {
        if succeeded {
            Ok(
                match stage {
                    ConnectStage::Resolve => ConnectStage::Connect,
                    ConnectStage::Connect => ConnectStage::Handshake,
                    ConnectStage::Handshake => ConnectStage::Authenticate,
                    ConnectStage::Authenticate => ConnectStage::OpenChannel,
                    ConnectStage::OpenChannel => ConnectStage::Ready,
                    ConnectStage::Ready => ConnectStage::Ready,
                },
            )
        } else {
            match stage {
                ConnectStage::Ready => Ok(ConnectStage::Ready),
                ConnectStage::Authenticate => Err(GatewayError::AuthenticationFailure),
                _ => Err(GatewayError::ConnectionFailure),
            }
        }
    }

    /// What a download of the remote file at `path` starts from, once the
    /// file was opened: a stream that has delivered nothing yet, the name
    /// to offer the file under, and the file's metadata. Where the server
    /// gave no metadata (`stat` is `None`), nothing counts as reported.
    pub fn download_file(&self, path: &str, stat: Option<RemoteStat>) -> (download: (
        AsyncSftp,
        String,
        RemoteStat,
    ))
        ensures
            download.0@ == crate::sftp::stream::StreamState::Idle,
            download.1@ == download_name(path@),
            download.2 == known_stat(stat),
    {
        let name = match compute_file_name(&chars_of(path)) {
            Some(name) => string_of(&name),
            None => "installer.exe".to_owned(),
        };
        let stat = match stat {
            Some(stat) => stat,
            None => RemoteStat { size: None, perm: None },
        };
        (AsyncSftp::new(), name, stat)
    }
}

} // verus!
