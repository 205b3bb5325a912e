use koveed::config::{data_dir, parse_args, recording_egress, Egress};
use koveed::peercred::{authenticate_same_uid, AuthError, PeerCredentials};
use koveed::socket::{socket_dir, socket_path, BindError};

fn strings(list: &[&str]) -> Vec<String> {
    list.iter().map(|s| s.to_string()).collect()
}

#[test]
fn same_uid_authenticates_and_a_foreign_uid_is_refused() {
    let own = PeerCredentials { pid: 7, uid: 1000, gid: 1000 };
    assert_eq!(authenticate_same_uid(Ok(own), 1000), Ok(own));
    let other = 1000u32.wrapping_add(1);
    assert_eq!(authenticate_same_uid(Ok(own), other), Err(AuthError::Unauthorized));
}

#[test]
fn unread_credentials_are_handed_on() {
    let e = AuthError::Credentials("EBADF".to_string());
    assert_eq!(e.message(), "could not read peer credentials: EBADF");
    assert_eq!(
        authenticate_same_uid(Err(AuthError::Credentials("EBADF".to_string())), 1),
        Err(AuthError::Credentials("EBADF".to_string()))
    );
    assert_eq!(AuthError::Unauthorized.message(), "local peer is not authorized");
}

#[test]
fn the_runtime_directory_that_is_set_wins() {
    assert_eq!(socket_path(Some("/run/k"), Some("/run/user/1"), "/tmp", 5), "/run/k/kovee.sock");
    assert_eq!(socket_dir(Some(""), Some("/run/user/1"), "/tmp", 5), "/run/user/1/kovee");
    assert_eq!(socket_dir(None, Some(""), "/tmp/", 5), "/tmp/kovee-5");
    assert_eq!(socket_path(None, None, "/tmp", 4294967295), "/tmp/kovee-4294967295/kovee.sock");
}

#[test]
fn two_users_have_two_directories() {
    assert_ne!(socket_dir(None, None, "/tmp", 11), socket_dir(None, None, "/tmp", 1));
}

#[test]
fn a_bind_error_says_what_failed() {
    assert_eq!(BindError::Io("denied".to_string()).message(), "socket io: denied");
}

#[test]
fn arguments_name_a_data_directory() {
    assert_eq!(parse_args(&vec![]), Ok(None));
    assert_eq!(parse_args(&strings(&["--data-dir", "/d"])), Ok(Some("/d".to_string())));
    assert_eq!(
        parse_args(&strings(&["--data-dir", "/d", "--data-dir", "/e"])),
        Ok(Some("/e".to_string()))
    );
}

#[test]
fn arguments_that_are_not_understood_are_named() {
    assert_eq!(
        parse_args(&strings(&["--data-dir"])),
        Err("--data-dir needs a path".to_string())
    );
    assert_eq!(
        parse_args(&strings(&["--data-dir", "/d", "a\"b"])),
        Err("unknown argument \"a\\\"b\"".to_string())
    );
}

#[test]
fn the_data_directory_falls_back() {
    let cli = Some("/cli".to_string());
    assert_eq!(data_dir(cli, Some("/k"), Some("/x"), Some("/h")), "/cli");
    assert_eq!(data_dir(None, Some("/k"), Some("/x"), Some("/h")), "/k");
    assert_eq!(data_dir(None, Some(""), Some("/x"), Some("/h")), "/x/kovee");
    assert_eq!(data_dir(None, None, Some(""), Some("/h")), "/h/.local/share/kovee");
    assert_eq!(data_dir(None, None, None, Some("")), ".local/share/kovee");
    assert_eq!(data_dir(None, None, None, None), ".kovee");
}

#[test]
fn a_recorded_reply_is_a_file_or_a_body() {
    assert!(recording_egress(None).is_none());
    assert!(recording_egress(Some("")).is_none());
    match recording_egress(Some("@/r.json")) {
        Some(Egress::File(p)) => assert_eq!(p, "/r.json"),
        _ => panic!("a file was meant"),
    }
    match recording_egress(Some("{\"id\":1}")) {
        Some(Egress::Body(b)) => assert_eq!(b, "{\"id\":1}"),
        _ => panic!("a body was meant"),
    }
}
