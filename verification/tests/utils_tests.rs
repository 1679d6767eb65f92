//! Tests of the shared helpers: the token alphabet, random strings, port
//! parsing, text helpers, and the decision cores of the drive, file,
//! hotspot and DNS subsystems.

use drive_pi::models::drives::Drive;
use drive_pi::models::errors::{
    server_error, AuthError, DrivesError, FilesError, GenericError, HotspotError,
};
use drive_pi::utils::dnsmasq::{config_contents, hosts_entry, hosts_with_entry};
use drive_pi::utils::drives::{
    classify_unmount_error, get_drive_list, mount_dir_name, quote_path, BlockDevice, LSBLKOutput,
};
use drive_pi::utils::files::{get_files_at, path_within, FsEntry};
use drive_pi::utils::hotspot::{
    default_hotspot_interface, default_hotspot_password, default_hotspot_ssid, hotspot_activated,
    hotspot_password_ok, Hotspot,
};
use drive_pi::utils::text::{str_contains, str_eq, str_starts_with};
use drive_pi::utils::{create_character_set, create_random_string, get_env_port, parse_port};

#[test]
fn character_set_is_the_token_alphabet() {
    let charset = create_character_set();
    let expected: Vec<char> =
        "abcdefghijklmnopqrstuvwxyzABCDEFGHIJKLMNOPQRSTUVWXYZ0123456789-".chars().collect();
    assert_eq!(charset, expected);
    assert_eq!(charset.len(), 63);
    for i in 0..charset.len() {
        for j in 0..i {
            assert_ne!(charset[i], charset[j]);
        }
    }
}

#[test]
fn random_string_has_length_and_alphabet() {
    let s = create_random_string("ab", 10);
    assert_eq!(s.chars().count(), 10);
    for c in s.chars() {
        assert!(c == 'a' || c == 'b');
    }
    let t = create_random_string("x", 5);
    assert_eq!(t, "xxxxx");
    let empty = create_random_string("abc", 0);
    assert_eq!(empty, "");
}

#[test]
fn parse_port_accepts_digits() {
    assert_eq!(parse_port("8080"), Some(8080));
    assert_eq!(parse_port("0"), Some(0));
    assert_eq!(parse_port("65535"), Some(65535));
    assert_eq!(parse_port("+80"), Some(80));
}

#[test]
fn parse_port_rejects_bad_values() {
    assert_eq!(parse_port(""), None);
    assert_eq!(parse_port("+"), None);
    assert_eq!(parse_port("65536"), None);
    assert_eq!(parse_port("80a"), None);
    assert_eq!(parse_port("-1"), None);
    assert_eq!(parse_port("8 0"), None);
}

#[test]
fn env_port_falls_back_to_default() {
    assert_eq!(get_env_port(None), 80);
    assert_eq!(get_env_port(Some("not-a-port")), 80);
    assert_eq!(get_env_port(Some("70000")), 80);
    assert_eq!(get_env_port(Some("8080")), 8080);
}

#[test]
fn text_helpers() {
    assert!(str_eq("abc", "abc"));
    assert!(!str_eq("abc", "abd"));
    assert!(!str_eq("abc", "abcd"));
    assert!(str_starts_with("/boot/efi", "/boot"));
    assert!(!str_starts_with("/boo", "/boot"));
    assert!(str_contains("umount: target is busy.", "target is busy"));
    assert!(!str_contains("device not found", "target is busy"));
    assert!(str_contains("anything", ""));
}

#[test]
fn path_containment() {
    assert!(path_within("/srv/mount/usb", "/srv/mount"));
    assert!(path_within("/srv/mount", "/srv/mount"));
    assert!(path_within("/srv/mount/usb", "/srv/mount/"));
    assert!(!path_within("/srv/mountextra", "/srv/mount"));
    assert!(!path_within("/etc/passwd", "/srv/mount"));
}

fn plain_drive(name: &str, mount: Option<&str>) -> Drive {
    Drive {
        uuid: String::from("21c89e37-a0aa-48bc-aead-cec8d9a8e8cc"),
        name: String::from(name),
        label: String::from("USB Drive"),
        path: format!("/dev/{}", name),
        mount: mount.map(String::from),
        size: None,
        used: None,
        mode: String::from("brw-rw----"),
    }
}

#[test]
fn drive_listing_filters_system_partitions() {
    let parsed = LSBLKOutput {
        devices: vec![
            BlockDevice {
                name: String::from("sda"),
                children: Some(vec![
                    plain_drive("sda1", Some("/")),
                    plain_drive("sda2", Some("/boot/efi")),
                    plain_drive("sda3", Some("/run/media/DRIVE")),
                    plain_drive("sda4", None),
                ]),
            },
            BlockDevice { name: String::from("loop0"), children: Some(vec![plain_drive("loop0p1", None)]) },
            BlockDevice { name: String::from("sdb"), children: None },
        ],
    };
    let response = get_drive_list(parsed, String::from("/srv/mount"));
    assert_eq!(response.mount_root, "/srv/mount");
    let names: Vec<&str> = response.drives.iter().map(|d| d.name.as_str()).collect();
    assert_eq!(names, vec!["sda3", "sda4"]);
}

#[test]
fn mount_helpers() {
    assert_eq!(mount_dir_name(), "mount");
    assert_eq!(quote_path("/srv/my mount"), "\"/srv/my mount\"");
    assert_eq!(classify_unmount_error("umount: /dev/sda1: target is busy."), DrivesError::TargetBusy);
    assert_eq!(classify_unmount_error("umount: /dev/sdb: not mounted."), DrivesError::UnmountError);
}

fn entry(name: &str, size: u64, permissions: u32, is_dir: bool) -> FsEntry {
    FsEntry { name: String::from(name), size, permissions, is_dir }
}

#[test]
fn file_listing_splits_folders_and_files() {
    let entries = vec![
        entry("example.txt", 14, 0o644, false),
        entry("Example Folder", 0, 0o755, true),
        entry("notes.md", 2, 0o600, false),
    ];
    let list = get_files_at("/srv/mount/usb", "/srv/mount", true, entries).unwrap();
    assert_eq!(list.folders.len(), 1);
    assert_eq!(list.folders[0].name, "Example Folder");
    assert_eq!(list.folders[0].permissions, 0o755);
    assert_eq!(list.files.len(), 2);
    assert_eq!(list.files[0].name, "example.txt");
    assert_eq!(list.files[0].size, 14);
    assert_eq!(list.files[1].name, "notes.md");
}

#[test]
fn file_listing_rejects_escaping_path() {
    let result = get_files_at("/etc", "/srv/mount", true, Vec::new());
    assert_eq!(result.unwrap_err(), FilesError::OutsideMountRoot);
}

#[test]
fn file_listing_rejects_non_directory() {
    let result = get_files_at("/srv/mount/usb/file.txt", "/srv/mount", false, Vec::new());
    assert_eq!(result.unwrap_err(), FilesError::NotDirectory);
}

#[test]
fn hotspot_rules() {
    assert_eq!(default_hotspot_interface(), "wlan0");
    assert_eq!(default_hotspot_ssid(), "Drive-PI");
    assert_eq!(default_hotspot_password(), "Drive-PI");
    assert!(hotspot_password_ok("longenough"));
    assert!(hotspot_password_ok("12345678"));
    assert!(!hotspot_password_ok("short"));
    assert!(hotspot_activated("Device 'wlan0' successfully activated with 'abc'."));
    assert!(!hotspot_activated("Error: Connection activation failed"));
    let _marker = Hotspot;
}

#[test]
fn dnsmasq_rules() {
    assert_eq!(config_contents(), "address=/.local/10.42.0.1");
    assert_eq!(hosts_entry(), "127.0.0.1 drivepi.local");
    let untouched = hosts_with_entry(String::from("127.0.0.1 localhost\n127.0.0.1 drivepi.local\n"));
    assert_eq!(untouched, "127.0.0.1 localhost\n127.0.0.1 drivepi.local\n");
    let updated = hosts_with_entry(String::from("127.0.0.1 localhost"));
    assert_eq!(updated, "127.0.0.1 localhost\n127.0.0.1 drivepi.local\n");
}

#[test]
fn error_catalogue() {
    assert_eq!(server_error("anything"), GenericError::ServerError);
    assert_eq!(GenericError::ServerError.message(), "internal server error");
    assert_eq!(AuthError::InvalidCredentials.message(), "invalid credentials");
    assert_eq!(AuthError::MissingToken.message(), "missing token");
    assert_eq!(AuthError::InvalidToken.message(), "invalid token");
    assert_eq!(
        AuthError::from(GenericError::ServerError),
        AuthError::GenericError(GenericError::ServerError)
    );
    assert_eq!(AuthError::GenericError(GenericError::ServerError).message(), "internal server error");
    assert_eq!(DrivesError::ParseError.message(), "parse error");
    assert_eq!(DrivesError::UnmountError.message(), "unmount error");
    assert_eq!(DrivesError::MountError.message(), "mount error");
    assert_eq!(DrivesError::TargetBusy.message(), "Target is busy cannot unmount");
    assert_eq!(DrivesError::IOError.message(), "io error");
    assert_eq!(DrivesError::IOError.status_code(), 500);
    assert_eq!(FilesError::OutsideMountRoot.message(), "path outside mount root");
    assert_eq!(FilesError::NotDirectory.message(), "path was not a directory");
    assert_eq!(FilesError::IOError.message(), "io error");
    assert_eq!(FilesError::OutsideMountRoot.status_code(), 400);
    assert_eq!(FilesError::NotDirectory.status_code(), 400);
    assert_eq!(FilesError::IOError.status_code(), 500);
    assert_eq!(HotspotError::NotActivated.message(), "failed to activate hotspot");
    assert_eq!(HotspotError::CommandError.message(), "failed to execute hotspot command");
    assert_eq!(
        HotspotError::CommandOutputError.message(),
        "failed to parse output from hotspot command"
    );
}
