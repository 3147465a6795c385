use update_supervisor::error::{StoreFailure, UpdateError};
use update_supervisor::layout::InstallationState;
use update_supervisor::notify::{notification, parse_pid};
use update_supervisor::protocol::PidFile;
use update_supervisor::store::{binary_key, config_key, latest_key};
use update_supervisor::text::text_from_bytes;
use update_supervisor::version::Version;

#[test]
fn version_is_the_trimmed_text() {
    assert_eq!(Version::from_text("v3").as_str(), "v3");
    assert_eq!(Version::from_text("  v3\n").as_str(), "v3");
    assert_eq!(Version::from_text("\n").as_str(), "");
    assert_eq!(Version::from_text("1.2.3 beta\r\n").as_str(), "1.2.3 beta");
}

#[test]
fn versions_compare_by_equality_only() {
    let a = Version::from_text("v5");
    let b = Version::from_text(" v5 ");
    let c = Version::from_text("v4");
    let d = Version::from_text("V5");
    assert!(a.same_as(&b));
    assert!(a == b);
    assert!(!a.same_as(&c));
    assert!(a != c);
    assert!(!a.same_as(&d));
    assert!(a.clone() == a);
}

#[test]
fn latest_version_comes_from_the_pointer() {
    assert_eq!(Version::latest(b"v7\n".to_vec()).unwrap().as_str(), "v7");
    assert_eq!(Version::latest(b"  1.4.0-rc1  ".to_vec()).unwrap().as_str(), "1.4.0-rc1");
    assert_eq!(Version::latest(Vec::new()).unwrap().as_str(), "");
    assert_eq!(Version::latest("\u{2003}v\u{e9}\u{a0}".as_bytes().to_vec()).unwrap().as_str(), "v\u{e9}");
    assert!(Version::latest(vec![b'v', 0xff]).is_none());
    assert!(Version::latest(vec![0xc3]).is_none());
}

#[test]
fn installed_version_comes_from_the_marker() {
    assert!(Version::installed(None).is_none());
    let found = Version::installed(Some(b"v4\n".to_vec())).unwrap();
    assert_eq!(found.as_str(), "v4");
    let empty = Version::installed(Some(Vec::new())).unwrap();
    assert_eq!(empty.as_str(), "");
    assert!(Version::installed(Some(vec![0xff, 0xfe])).is_none());
}

#[test]
fn only_the_same_version_counts_as_installed() {
    let latest = Version::from_text("v5");
    assert!(latest.is_installed(&Some(Version::from_text("v5\n"))));
    assert!(!latest.is_installed(&Some(Version::from_text("v4"))));
    assert!(!latest.is_installed(&Some(Version::from_text("v6"))));
    assert!(!latest.is_installed(&None));
    assert!(!Version::from_text("").is_installed(&None));
    assert!(Version::from_text("").is_installed(&Some(Version::from_text(" "))));
}

#[test]
fn version_bytes_are_its_utf8() {
    assert_eq!(Version::from_text(" v5 ").to_bytes(), b"v5".to_vec());
    assert_eq!(Version::from_text("v\u{e9}").to_bytes(), vec![0x76, 0xC3, 0xA9]);
    assert_eq!(Version::from_text("").to_bytes(), Vec::<u8>::new());
}

#[test]
fn store_keys_follow_the_layout() {
    let v = Version::from_text("v3");
    assert_eq!(latest_key("myapp"), "myapp/latest.txt");
    assert_eq!(binary_key("myapp", &v), "myapp/executables/v3/cmd");
    assert_eq!(config_key("myapp", &v), "myapp/executables/v3/config.json");
    assert_eq!(latest_key(""), "/latest.txt");
    assert_eq!(binary_key("a/b", &Version::from_text("")), "a/b/executables//cmd");
}

#[test]
fn installation_paths_lie_under_the_directory() {
    let state = InstallationState::under("/shared");
    assert_eq!(state.live_binary(), "/shared/cmd");
    assert_eq!(state.live_config(), "/shared/config.json");
    assert_eq!(state.marker(), "/shared/current_version.txt");
    assert_eq!(state.pid_file(), "/shared/wrapper.pid");
    assert_eq!(state.staging_binary(), "/shared/new_cmd");
    assert_eq!(state.staging_config(), "/shared/new_config.json");
}

#[test]
fn installation_paths_are_distinct() {
    for dir in ["/shared", "", ".", "/a/new_cmd", "/x/"] {
        let state = InstallationState::under(dir);
        let paths = [
            state.live_binary(),
            state.live_config(),
            state.marker(),
            state.pid_file(),
            state.staging_binary(),
            state.staging_config(),
        ];
        for i in 0..paths.len() {
            for j in 0..i {
                assert_ne!(paths[i], paths[j]);
            }
        }
    }
}

#[test]
fn notification_reads_the_pid() {
    assert_eq!(notification(PidFile::Absent), Ok(None));
    assert_eq!(notification(PidFile::Contents(b"4242".to_vec())), Ok(Some(4242)));
    assert_eq!(notification(PidFile::Contents(b" 4242\n".to_vec())), Ok(Some(4242)));
    assert_eq!(notification(PidFile::Contents(b"1".to_vec())), Ok(Some(1)));
}

#[test]
fn notification_rejects_what_is_no_pid() {
    let invalid = Err(UpdateError::InvalidPid);
    assert_eq!(notification(PidFile::Unreadable), invalid);
    assert_eq!(notification(PidFile::Contents(Vec::new())), invalid);
    assert_eq!(notification(PidFile::Contents(b"\n".to_vec())), invalid);
    assert_eq!(notification(PidFile::Contents(b"abc".to_vec())), invalid);
    assert_eq!(notification(PidFile::Contents(b"12 34".to_vec())), invalid);
    assert_eq!(notification(PidFile::Contents(b"12.5".to_vec())), invalid);
    assert_eq!(notification(PidFile::Contents(b"99999999999".to_vec())), invalid);
    assert_eq!(notification(PidFile::Contents(vec![b'1', 0xff])), invalid);
}

#[test]
fn parse_pid_reads_trimmed_decimal_text() {
    assert_eq!(parse_pid(b"31337\n".to_vec()), Some(31337));
    assert_eq!(parse_pid(b"\t-5 ".to_vec()), Some(-5));
    assert_eq!(parse_pid(b"0".to_vec()), Some(0));
    assert_eq!(parse_pid(b"pid".to_vec()), None);
    assert_eq!(parse_pid(vec![0x80]), None);
}

#[test]
fn text_from_bytes_decodes_utf8_only() {
    assert_eq!(text_from_bytes(b"plain".to_vec()), Some(String::from("plain")));
    assert_eq!(text_from_bytes(Vec::new()), Some(String::new()));
    assert_eq!(text_from_bytes(vec![0xe2, 0x82, 0xac]), Some(String::from("\u{20ac}")));
    assert_eq!(text_from_bytes(vec![0xe2, 0x82]), None);
    assert_eq!(text_from_bytes(vec![0xed, 0xa0, 0x80]), None);
    assert_eq!(text_from_bytes(vec![0xc0, 0x80]), None);
    assert_eq!(text_from_bytes(vec![b'a', 0xff]), None);
}

#[test]
fn store_failures_map_to_update_errors() {
    assert_eq!(StoreFailure::Unavailable.to_error(), UpdateError::RemoteUnavailable);
    assert_eq!(StoreFailure::Missing.to_error(), UpdateError::ObjectMissing);
}

#[test]
fn only_missing_configuration_is_fatal() {
    assert!(UpdateError::ConfigMissing.is_fatal());
    for error in [
        UpdateError::RemoteUnavailable,
        UpdateError::ObjectMissing,
        UpdateError::InvalidPid,
        UpdateError::SignalDeliveryFailed,
        UpdateError::InstallFailed,
    ] {
        assert!(!error.is_fatal());
    }
}

#[test]
fn executable_mode_is_rwxr_xr_x() {
    assert_eq!(update_supervisor::install::EXECUTABLE_MODE, 0o755);
}
