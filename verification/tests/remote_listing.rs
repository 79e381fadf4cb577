use sftp_gateway::error::{ConfigKey, GatewayError};
use sftp_gateway::sftp::{
    ConnectStage, RemoteEntry, RemoteErrorCode, RemoteStat, SftpConnection, SftpElement,
    REMOTE_TIMEOUT_MS,
};

fn connection() -> SftpConnection {
    SftpConnection::new("files.example.org:22", "alice", "secret")
}

fn entry(path: Option<&str>, perm: Option<u32>) -> RemoteEntry {
    RemoteEntry { path: path.map(String::from), stat: RemoteStat { size: None, perm } }
}

fn pairs(list: &[SftpElement]) -> Vec<(String, bool)> {
    list.iter().map(|e| (e.path().clone(), e.is_directory())).collect()
}

#[test]
fn listing_puts_a_slash_in_front_of_relative_paths() {
    let entries = vec![entry(Some("data/report.txt"), Some(0o100644))];
    let list = connection().file_list(&entries);
    assert_eq!(pairs(&list), vec![("/data/report.txt".to_string(), false)]);
}

#[test]
fn listing_keeps_paths_that_are_absolute_already() {
    let entries = vec![entry(Some("/srv/files"), Some(0o040755))];
    let list = connection().file_list(&entries);
    assert_eq!(pairs(&list), vec![("/srv/files".to_string(), true)]);
}

#[test]
fn listing_does_not_collapse_a_double_slash() {
    let entries = vec![entry(Some("//odd"), Some(0o100644))];
    let list = connection().file_list(&entries);
    assert_eq!(list[0].path(), "//odd");
}

#[test]
fn every_listed_path_begins_with_a_slash() {
    let entries = vec![
        entry(Some("a"), Some(0o100644)),
        entry(Some("/b"), Some(0o040755)),
        entry(Some(""), None),
        entry(None, Some(0o100644)),
        entry(Some("dir/ünïcödé.txt"), Some(0o100600)),
    ];
    let list = connection().file_list(&entries);
    assert_eq!(list.len(), 5);
    for element in &list {
        assert!(element.path().starts_with('/'));
    }
}

#[test]
fn a_name_that_is_not_unicode_is_listed_as_the_root() {
    let list = connection().file_list(&vec![entry(None, Some(0o100644))]);
    assert_eq!(pairs(&list), vec![("/".to_string(), false)]);
}

#[test]
fn an_empty_name_is_listed_as_the_root() {
    let list = connection().file_list(&vec![entry(Some(""), Some(0o040700))]);
    assert_eq!(pairs(&list), vec![("/".to_string(), true)]);
}

#[test]
fn an_empty_directory_gives_an_empty_listing() {
    let list = connection().file_list(&Vec::new());
    assert!(list.is_empty());
}

#[test]
fn listing_keeps_the_order_of_the_server() {
    let entries = vec![
        entry(Some("z"), Some(0o100644)),
        entry(Some("a"), Some(0o040755)),
        entry(Some("m"), Some(0o100644)),
    ];
    let list = connection().file_list(&entries);
    assert_eq!(
        pairs(&list),
        vec![
            ("/z".to_string(), false),
            ("/a".to_string(), true),
            ("/m".to_string(), false),
        ]
    );
}

#[test]
fn listing_does_not_filter_or_deduplicate() {
    let entries = vec![
        entry(Some(".hidden"), Some(0o100644)),
        entry(Some("same"), Some(0o100644)),
        entry(Some("same"), Some(0o100644)),
    ];
    let list = connection().file_list(&entries);
    assert_eq!(
        pairs(&list),
        vec![
            ("/.hidden".to_string(), false),
            ("/same".to_string(), false),
            ("/same".to_string(), false),
        ]
    );
}

#[test]
fn non_ascii_paths_survive_unchanged() {
    let list = connection().file_list(&vec![entry(Some("données/été 🌞.txt"), Some(0o100644))]);
    assert_eq!(list[0].path(), "/données/été 🌞.txt");
}

#[test]
fn a_directory_mode_is_a_directory() {
    assert!(RemoteStat { size: None, perm: Some(0o040755) }.is_dir());
    assert!(RemoteStat { size: Some(4096), perm: Some(0o040000) }.is_dir());
    assert!(RemoteStat { size: None, perm: Some(0o047777) }.is_dir());
}

#[test]
fn other_file_types_are_no_directories() {
    for perm in [
        0o100644u32, // regular file
        0o120777,    // symbolic link
        0o010644,    // named pipe
        0o020644,    // character device
        0o060644,    // block device
        0o140644,    // socket
        0o000755,    // no type at all
        0o777,
    ] {
        assert!(!RemoteStat { size: None, perm: Some(perm) }.is_dir(), "mode {:o}", perm);
    }
}

#[test]
fn a_mode_that_was_not_reported_is_no_directory() {
    assert!(!RemoteStat { size: Some(1), perm: None }.is_dir());
}

#[test]
fn the_directory_bit_alone_does_not_decide() {
    // block device: the directory bit is set, and another type bit with it
    assert!(!RemoteStat { size: None, perm: Some(0o060000) }.is_dir());
    // bits above the type field are ignored
    assert!(RemoteStat { size: None, perm: Some(0o1040755) }.is_dir());
}

#[test]
fn is_dir_agrees_with_the_metadata_of_the_outside_crate() {
    for perm in [None, Some(0u32), Some(0o040755), Some(0o100644), Some(0o120777), Some(u32::MAX)] {
        let theirs = ssh2::FileStat {
            size: None,
            uid: None,
            gid: None,
            perm,
            atime: None,
            mtime: None,
        };
        assert_eq!(RemoteStat { size: None, perm }.is_dir(), theirs.is_dir());
    }
}

#[test]
fn configuration_with_all_values_gives_a_connection() {
    let c = SftpConnection::from_env_config(
        Some("files.example.org"),
        Some("2222"),
        Some("alice"),
        Some("secret"),
    )
    .unwrap();
    assert_eq!(c.hostname(), "files.example.org:2222");
    assert_eq!(c.username(), "alice");
    assert_eq!(c.password(), "secret");
}

#[test]
fn the_port_defaults_to_22() {
    let c = SftpConnection::from_env_config(Some("files.example.org"), None, Some("a"), Some("b"))
        .unwrap();
    assert_eq!(c.connected_to(), "files.example.org:22");
}

#[test]
fn a_missing_host_is_reported() {
    let r = SftpConnection::from_env_config(None, Some("22"), Some("a"), Some("b"));
    assert_eq!(r.err(), Some(GatewayError::ConfigurationMissing(ConfigKey::Hostname)));
}

#[test]
fn a_missing_user_name_is_reported() {
    let r = SftpConnection::from_env_config(Some("h"), Some("22"), None, Some("b"));
    assert_eq!(r.err(), Some(GatewayError::ConfigurationMissing(ConfigKey::Username)));
}

#[test]
fn a_missing_password_is_reported() {
    let r = SftpConnection::from_env_config(Some("h"), None, Some("a"), None);
    assert_eq!(r.err(), Some(GatewayError::ConfigurationMissing(ConfigKey::Password)));
}

#[test]
fn the_first_missing_value_is_the_one_reported() {
    let r = SftpConnection::from_env_config(None, None, None, None);
    assert_eq!(r.err(), Some(GatewayError::ConfigurationMissing(ConfigKey::Hostname)));
    let r = SftpConnection::from_env_config(Some("h"), None, None, None);
    assert_eq!(r.err(), Some(GatewayError::ConfigurationMissing(ConfigKey::Username)));
}

#[test]
fn empty_values_are_values() {
    let c = SftpConnection::from_env_config(Some(""), Some(""), Some(""), Some("")).unwrap();
    assert_eq!(c.hostname(), ":");
    assert_eq!(c.username(), "");
    assert_eq!(c.password(), "");
}

#[test]
fn new_keeps_what_it_is_given() {
    let c = SftpConnection::new("10.0.0.7:22", "bob", "pa:ss/word");
    assert_eq!(c.hostname(), "10.0.0.7:22");
    assert_eq!(c.username(), "bob");
    assert_eq!(c.password(), "pa:ss/word");
    assert_eq!(c.connected_to(), "10.0.0.7:22");
}

#[test]
fn the_session_is_set_up_step_by_step() {
    let c = connection();
    let mut stage = ConnectStage::Resolve;
    let mut seen = vec![stage];
    while stage != ConnectStage::Ready {
        stage = c.connect_to(stage, true).unwrap();
        seen.push(stage);
    }
    assert_eq!(
        seen,
        vec![
            ConnectStage::Resolve,
            ConnectStage::Connect,
            ConnectStage::Handshake,
            ConnectStage::Authenticate,
            ConnectStage::OpenChannel,
            ConnectStage::Ready,
        ]
    );
}

#[test]
fn a_failed_step_is_a_failed_connection() {
    let c = connection();
    for stage in [
        ConnectStage::Resolve,
        ConnectStage::Connect,
        ConnectStage::Handshake,
        ConnectStage::OpenChannel,
    ] {
        assert_eq!(c.connect_to(stage, false), Err(GatewayError::ConnectionFailure));
    }
}

#[test]
fn a_failed_authentication_is_reported_as_such() {
    assert_eq!(
        connection().connect_to(ConnectStage::Authenticate, false),
        Err(GatewayError::AuthenticationFailure)
    );
}

#[test]
fn a_session_that_is_set_up_stays_so() {
    assert_eq!(connection().connect_to(ConnectStage::Ready, true), Ok(ConnectStage::Ready));
    assert_eq!(connection().connect_to(ConnectStage::Ready, false), Ok(ConnectStage::Ready));
}

#[test]
fn error_codes_of_the_protocol_are_classified() {
    assert_eq!(RemoteErrorCode::Sftp(2).classify(), GatewayError::RemotePathNotFound);
    assert_eq!(RemoteErrorCode::Sftp(10).classify(), GatewayError::RemotePathNotFound);
    assert_eq!(RemoteErrorCode::Sftp(3).classify(), GatewayError::RemoteReadFailure);
    assert_eq!(RemoteErrorCode::Sftp(4).classify(), GatewayError::RemoteReadFailure);
    assert_eq!(RemoteErrorCode::Sftp(0).classify(), GatewayError::RemoteReadFailure);
    assert_eq!(RemoteErrorCode::Sftp(-18).classify(), GatewayError::RemoteReadFailure);
}

#[test]
fn error_codes_of_the_session_are_classified() {
    assert_eq!(RemoteErrorCode::Session(-18).classify(), GatewayError::AuthenticationFailure);
    assert_eq!(RemoteErrorCode::Session(-13).classify(), GatewayError::ConnectionFailure);
    assert_eq!(RemoteErrorCode::Session(-9).classify(), GatewayError::ConnectionFailure);
    assert_eq!(RemoteErrorCode::Session(2).classify(), GatewayError::ConnectionFailure);
    assert_eq!(RemoteErrorCode::Session(i32::MIN).classify(), GatewayError::ConnectionFailure);
}

#[test]
fn the_codes_are_those_of_the_outside_crate() {
    let missing = ssh2::Error::from_errno(ssh2::ErrorCode::SFTP(2));
    let code = match missing.code() {
        ssh2::ErrorCode::Session(c) => RemoteErrorCode::Session(c),
        ssh2::ErrorCode::SFTP(c) => RemoteErrorCode::Sftp(c),
    };
    assert_eq!(code.classify(), GatewayError::RemotePathNotFound);
    assert_eq!(missing.message(), "no such file");

    let rejected = ssh2::Error::from_errno(ssh2::ErrorCode::Session(-18));
    assert_eq!(rejected.message(), "authentication failed");
}

#[test]
fn remote_operations_time_out() {
    assert_eq!(REMOTE_TIMEOUT_MS, 30_000);
}
