use saffrodex::daemon_mounts::ancestry::mount_is_descendant_of;
use saffrodex::daemon_mounts::ancestry::path_is_covered_by_descendant_mount;
use saffrodex::daemon_mounts::discovery::device_text;
use saffrodex::daemon_mounts::discovery::discover_daemon_socket_mounts;
use saffrodex::daemon_mounts::discovery::mount_id_from_fdinfo;
use saffrodex::daemon_mounts::discovery::opened_mount;
use saffrodex::daemon_mounts::discovery::MountIdReply;
use saffrodex::daemon_mounts::isolation::check_mounts;
use saffrodex::daemon_mounts::isolation::DaemonSocketMounts;
use saffrodex::daemon_mounts::mountinfo::mount_path;
use saffrodex::daemon_mounts::mountinfo::parse_mounts;
use saffrodex::daemon_mounts::mountinfo::unsupported_mount;
use saffrodex::daemon_mounts::mountinfo::MountError;
use saffrodex::daemon_mounts::mountinfo::MountErrorKind;
use saffrodex::daemon_mounts::path::path_less;
use saffrodex::daemon_mounts::path::UnixPath;

const DIRECTORY: &[u8] = b"/tmp/codex-daemon-1000";

fn check(
    directory: &[u8],
    device: &str,
    mount_id: Option<&str>,
    mountinfo: &[u8],
) -> Result<DaemonSocketMounts, MountError> {
    check_mounts(directory, device, mount_id, mountinfo, None)
}

fn paths(mounts: &DaemonSocketMounts) -> Vec<String> {
    mounts
        .directories()
        .iter()
        .map(|path| String::from_utf8(path.to_bytes()).unwrap())
        .collect()
}

fn sorted(expected: &[&str]) -> Vec<String> {
    let mut expected: Vec<String> = expected.iter().map(|path| path.to_string()).collect();
    expected.sort_by(|a, b| std::path::Path::new(a).cmp(std::path::Path::new(b)));
    expected.dedup();
    expected
}

#[test]
fn discovers_complete_directory_aliases() {
    for (root, destination, expected_alias) in [
        ("/tmp", "/host-tmp", "/host-tmp/codex-daemon-1000"),
        ("/tmp/codex-daemon-1000", "/alias", "/alias"),
        ("/", "/host", "/host/tmp/codex-daemon-1000"),
        ("/tmp", "/host\\040tmp", "/host tmp/codex-daemon-1000"),
    ] {
        let mounts = format!(
            "1 0 0:1 / / rw - ext4 disk rw\n2 1 0:1 {root} {destination} rw - ext4 disk rw\n"
        );
        for mount_id in [Some("1"), None] {
            let found = check(DIRECTORY, "0:1", mount_id, mounts.as_bytes()).unwrap();
            assert_eq!(
                paths(&found),
                sorted(&["/tmp/codex-daemon-1000", expected_alias]),
                "mount_id: {mount_id:?}"
            );
        }
    }
}

#[test]
fn rejects_mounts_that_expose_less_than_the_complete_directory() {
    for (root, destination) in [
        ("/tmp/codex-daemon-1000/rpc.sock", "/alias.sock"),
        ("/tmp/codex-daemon-1000/private", "/private"),
        ("/other", "/tmp/codex-daemon-1000/nested"),
    ] {
        let mounts = format!(
            "1 0 0:1 / / rw - ext4 disk rw\n2 1 0:1 {root} {destination} rw - ext4 disk rw\n"
        );
        for mount_id in [Some("1"), None] {
            let error = check(DIRECTORY, "0:1", mount_id, mounts.as_bytes()).unwrap_err();
            assert_eq!(error.kind(), MountErrorKind::PermissionDenied);
            assert_eq!(
                error.message(),
                format!(
                    "app-server socket directory has an unsupported host mount at {destination}; remove the bind-mount alias or nested mount before starting the sandbox"
                )
            );
        }
    }
}

#[test]
fn ignores_mounts_without_an_additional_directory_alias() {
    for (root, destination) in [("/workspace", "/project"), ("/tmp", "/tmp")] {
        let mounts = format!(
            "1 0 0:1 / / rw - ext4 disk rw\n2 1 0:1 {root} {destination} rw - ext4 disk rw\n"
        );
        let visible_mount = if destination == "/tmp" { "2" } else { "1" };
        for mount_id in [Some(visible_mount), None] {
            let found = check(DIRECTORY, "0:1", mount_id, mounts.as_bytes()).unwrap();
            assert_eq!(paths(&found), vec!["/tmp/codex-daemon-1000".to_string()]);
        }
    }
}

#[test]
fn validates_namespace_mounts_by_device_and_destination() {
    for (device, root, destination, expected) in [
        ("0:2", "mnt:[4026532835]", "/run/snapd/ns/example.mnt", Ok(())),
        ("0:2", "net:[4026531840]", "/run/netns/example", Ok(())),
        (
            "0:2",
            "mnt:[4026532835]",
            "/tmp/codex-daemon-1000/ns",
            Err(MountErrorKind::PermissionDenied),
        ),
        (
            "0:1",
            "mnt:[4026532835]",
            "/run/snapd/ns/example.mnt",
            Err(MountErrorKind::Other),
        ),
        ("0:2", "mnt:[4026532835]", "relative/ns", Err(MountErrorKind::Other)),
        (
            "0:2",
            "mnt:[4026532835]",
            "/run/snapd/ns/\\invalid",
            Err(MountErrorKind::Other),
        ),
    ] {
        let mounts = format!(
            "1 0 0:1 / / rw - ext4 disk rw\n2 1 {device} {root} {destination} rw - nsfs nsfs rw\n"
        );
        for mount_id in [Some("1"), None] {
            assert_eq!(
                check(DIRECTORY, "0:1", mount_id, mounts.as_bytes())
                    .map(|_| ())
                    .map_err(|error| error.kind()),
                expected,
                "mount_id: {mount_id:?}, destination: {destination}",
            );
        }
    }
}

#[test]
fn unrelated_namespace_mount_does_not_hide_directory_alias() {
    let mounts = b"1 0 0:1 / / rw - ext4 disk rw\n\
                   2 1 0:2 net:[4026531840] /run/netns/example rw - nsfs nsfs rw\n\
                   3 1 0:1 /tmp/codex-daemon-1000 /alias rw - ext4 disk rw\n";
    for mount_id in [Some("1"), None] {
        assert_eq!(
            paths(&check(DIRECTORY, "0:1", mount_id, mounts).unwrap()),
            sorted(&["/alias", "/tmp/codex-daemon-1000"]),
            "mount_id: {mount_id:?}",
        );
    }
}

#[test]
fn discovers_source_alias_when_tmp_is_itself_a_bind_mount() {
    let mounts = b"1 0 0:1 / / rw - ext4 disk rw\n2 1 0:1 /backing/tmp /tmp rw - ext4 disk rw\n";
    let expected = sorted(&["/backing/tmp/codex-daemon-1000", "/tmp/codex-daemon-1000"]);
    assert_eq!(paths(&check(DIRECTORY, "0:1", Some("2"), mounts).unwrap()), expected);
    // A hidden deeper mount must not override the actual /tmp backing location.
    let hidden = [
        mounts.as_slice(),
        b"3 1 0:1 /tmp/codex-daemon-1000 /tmp/codex-daemon-1000 rw - ext4 disk rw\n",
    ]
    .concat();
    assert_eq!(paths(&check(DIRECTORY, "0:1", Some("2"), &hidden).unwrap()), expected);
}

#[test]
fn accepts_private_tmp_filesystem_and_resolves_stacked_mounts() {
    let mounts = "1 0 0:1 / / rw - ext4 disk rw\n2 1 0:2 / /tmp rw - tmpfs tmpfs rw\n";
    assert!(check(DIRECTORY, "0:2", Some("2"), mounts.as_bytes()).is_ok());
    assert!(check(DIRECTORY, "0:2", None, mounts.as_bytes()).is_ok());
    // Missing or inconsistent precise IDs must not fall back to the otherwise
    // acceptable conservative interpretation.
    assert!(check(DIRECTORY, "0:2", Some("missing"), mounts.as_bytes()).is_err());
    assert!(check(DIRECTORY, "0:2", Some("1"), mounts.as_bytes()).is_err());
    assert!(check(DIRECTORY, "0:3", None, mounts.as_bytes()).is_err());
    let stacked = format!("{mounts}3 2 0:2 /other /tmp rw - tmpfs tmpfs rw\n");
    assert!(check(DIRECTORY, "0:2", Some("3"), stacked.as_bytes()).is_ok());
    assert!(check(DIRECTORY, "0:2", None, stacked.as_bytes()).is_err());
}

#[test]
fn rejects_open_mount_that_has_been_covered() {
    let mounts = "1 0 0:1 / / rw - ext4 disk rw\n\
                  2 1 0:1 /tmp/private-old/tmp /tmp rw - ext4 disk rw\n\
                  3 2 0:1 /tmp/private-new/tmp /tmp rw - ext4 disk rw\n";
    assert!(check(DIRECTORY, "0:1", Some("2"), mounts.as_bytes()).is_err());
    assert!(check(DIRECTORY, "0:1", Some("3"), mounts.as_bytes()).is_ok());
    let exposed = format!(
        "{mounts}4 1 0:1 /tmp/private-new/tmp/codex-daemon-1000 /outside rw - ext4 disk rw\n"
    );
    assert!(check(DIRECTORY, "0:1", Some("2"), exposed.as_bytes()).is_err());
    assert_eq!(
        paths(&check(DIRECTORY, "0:1", Some("3"), exposed.as_bytes()).unwrap()),
        sorted(&["/tmp/codex-daemon-1000", "/outside"]),
    );
    assert!(check(DIRECTORY, "0:1", None, exposed.as_bytes()).is_err());
}

#[test]
fn rejects_mount_hidden_by_an_ancestor_overmount() {
    let directory = b"/tmp/private/codex-daemon-1000";
    let mounts = "1 0 0:1 / / rw - ext4 disk rw\n\
                  2 1 0:2 / /tmp rw - tmpfs tmpfs rw\n\
                  3 2 0:3 / /tmp/private rw - tmpfs tmpfs rw\n";
    assert!(check(directory, "0:3", Some("3"), mounts.as_bytes()).is_ok());
    let covered = format!("{mounts}4 2 0:2 /other /tmp rw - tmpfs tmpfs rw\n");
    assert!(check(directory, "0:3", Some("3"), covered.as_bytes()).is_err());
    assert!(check(directory, "0:2", Some("4"), covered.as_bytes()).is_ok());
}

#[test]
fn discovers_complete_aliases_for_private_tmp_bind() {
    for (root, parent) in [
        ("/tmp/systemd-private-service/tmp", "/"),
        ("/systemd-private-service/tmp", "/tmp"),
    ] {
        let mounts = format!(
            "1 0 0:1 / {parent} rw - ext4 disk rw\n2 1 0:1 {root} /tmp rw - ext4 disk rw\n"
        );
        assert_eq!(
            paths(&check(DIRECTORY, "0:1", Some("2"), mounts.as_bytes()).unwrap()),
            vec!["/tmp/codex-daemon-1000".to_string()],
        );
        // A private /tmp remains ambiguous when neither fdinfo nor statx
        // supplies an ID.
        assert!(check(DIRECTORY, "0:1", None, mounts.as_bytes()).is_err());

        let directory_alias = format!("{mounts}3 2 0:1 {root} /tmp/exposed rw - ext4 disk rw\n");
        assert_eq!(
            paths(&check(DIRECTORY, "0:1", Some("2"), directory_alias.as_bytes()).unwrap()),
            sorted(&["/tmp/codex-daemon-1000", "/tmp/exposed/codex-daemon-1000"]),
        );

        let root_alias = format!("{mounts}3 2 0:1 / /host rw - ext4 disk rw\n");
        assert!(check(DIRECTORY, "0:1", Some("2"), root_alias.as_bytes()).is_ok());

        let socket_alias = format!(
            "{mounts}3 2 0:1 {root}/codex-daemon-1000/rpc.sock /tmp/alias.sock rw - ext4 disk rw\n"
        );
        assert!(check(DIRECTORY, "0:1", Some("2"), socket_alias.as_bytes()).is_err());
    }
}

#[test]
fn masked_wslg_alias_is_omitted_without_hiding_other_aliases() {
    let mounts = "1 0 0:1 / / rw - ext4 disk rw\n2 1 0:1 / /mnt/wslg/distro rw - ext4 disk rw\n";
    let mask: Option<&[u8]> = Some(b"/mnt/wslg/distro");
    let exposed = format!("{mounts}3 1 0:1 /tmp /host-tmp rw - ext4 disk rw\n");
    let socket_alias =
        format!("{mounts}3 1 0:1 /tmp/codex-daemon-1000/rpc.sock /alias.sock rw - ext4 disk rw\n");
    for mount_id in [Some("1"), None] {
        assert!(check(DIRECTORY, "0:1", mount_id, mounts.as_bytes()).is_ok());
        assert_eq!(
            paths(&check_mounts(DIRECTORY, "0:1", mount_id, mounts.as_bytes(), mask).unwrap()),
            vec!["/tmp/codex-daemon-1000".to_string()],
        );
        assert_eq!(
            paths(&check_mounts(DIRECTORY, "0:1", mount_id, exposed.as_bytes(), mask).unwrap()),
            sorted(&["/host-tmp/codex-daemon-1000", "/tmp/codex-daemon-1000"]),
        );
        assert!(
            check_mounts(DIRECTORY, "0:1", mount_id, socket_alias.as_bytes(), mask).is_err()
        );
    }
}

#[test]
fn every_escape_is_decoded_and_others_are_errors() {
    let (path, bytes) = mount_path(b"/a\\040b\\011c\\012d\\134e", true).unwrap();
    assert_eq!(bytes, b"/a b\tc\nd\\e".to_vec());
    assert_eq!(path.to_bytes(), b"/a b\tc\nd\\e".to_vec());
    assert!(matches!(mount_path(b"/a\\041", true), Err(MountError::InvalidEscape)));
    assert!(matches!(mount_path(b"/a\\04", true), Err(MountError::InvalidEscape)));
    assert!(matches!(mount_path(b"a", true), Err(MountError::NotAbsolute)));
    assert_eq!(mount_path(b"a", false).unwrap().1, b"a".to_vec());
    assert_eq!(MountError::InvalidEscape.message(), "invalid mountinfo path escape");
    assert_eq!(MountError::NotAbsolute.message(), "mountinfo path is not absolute");
}

#[test]
fn short_lines_are_errors_and_empty_lines_are_not() {
    let error = check(DIRECTORY, "0:1", None, b"1 0 0:1 /").unwrap_err();
    assert!(matches!(error, MountError::Isolation));
    assert_eq!(error.kind(), MountErrorKind::Other);
    assert_eq!(error.message(), "cannot establish app-server socket mount isolation");
    assert!(check(DIRECTORY, "0:1", None, b"\n\n1 0 0:1 / / rw\n\n").is_ok());
    assert!(check(DIRECTORY, "0:1", None, b"").is_err());
}

#[test]
fn looping_parents_are_errors() {
    let mounts = parse_mounts(b"1 2 0:1 / /\n2 1 0:1 / /a\n3 3 0:1 / /b\n4 3 0:1 / /b/c\n", b"0:1")
        .unwrap();
    assert!(matches!(
        mount_is_descendant_of(b"1", b"9", &mounts),
        Err(MountError::Isolation)
    ));
    assert!(mount_is_descendant_of(b"1", b"2", &mounts).unwrap());
    assert!(mount_is_descendant_of(b"4", b"3", &mounts).unwrap());
    assert!(!mount_is_descendant_of(b"3", b"4", &mounts).unwrap());
    assert!(!mount_is_descendant_of(b"7", b"4", &mounts).unwrap());
    let inside = UnixPath::from_bytes(b"/b/c/d");
    let outside = UnixPath::from_bytes(b"/b/cd");
    let alone = parse_mounts(b"3 3 0:1 / /b\n4 3 0:1 / /b/c\n", b"0:1").unwrap();
    assert!(path_is_covered_by_descendant_mount(b"3", &inside, &alone).unwrap());
    assert!(!path_is_covered_by_descendant_mount(b"3", &outside, &alone).unwrap());
    assert!(path_is_covered_by_descendant_mount(b"9", &inside, &mounts).is_err());
    assert!(check(b"/a/x", "0:1", Some("2"), b"1 2 0:1 / /\n2 1 0:1 / /a\n").is_err());
}

#[test]
fn unsupported_mounts_are_named_even_if_they_are_not_utf8() {
    assert!(unsupported_mount(&"/caf\u{e9}".as_bytes().to_vec())
        .message()
        .contains(" host mount at /caf\u{e9}; remove "));
    let error = unsupported_mount(&b"/a\xff".to_vec());
    assert_eq!(error.kind(), MountErrorKind::PermissionDenied);
    assert_eq!(
        error.message(),
        "app-server socket directory has an unsupported host mount at /a\u{fffd}; remove the bind-mount alias or nested mount before starting the sandbox"
    );
}

#[test]
fn paths_are_compared_by_their_components() {
    let path = UnixPath::from_bytes(b"//a/./b/");
    assert_eq!(path.to_bytes(), b"/a/b".to_vec());
    assert!(path.same_as(&UnixPath::from_bytes(b"/a/b")));
    assert!(path.starts_with(&UnixPath::from_bytes(b"/a")));
    assert!(!path.starts_with(&UnixPath::from_bytes(b"/a/bc")));
    assert!(!UnixPath::from_bytes(b"./a").is_absolute());
    assert_eq!(UnixPath::from_bytes(b"./a/../b").to_bytes(), b"./a/../b".to_vec());
    for (less, greater) in [("/a", "/a/b"), ("/a/z", "/ab"), ("/", "a"), ("/..", "/a"), ("a", "b")] {
        let (first, second) =
            (UnixPath::from_bytes(less.as_bytes()), UnixPath::from_bytes(greater.as_bytes()));
        assert!(std::path::Path::new(less) < std::path::Path::new(greater));
        assert!(path_less(&first, &second), "{less} {greater}");
        assert!(!path_less(&second, &first), "{less} {greater}");
    }
}

#[test]
fn the_open_directory_is_identified_by_fdinfo_and_then_by_statx() {
    let fdinfo = "pos:\t0\nflags:\t02100000\nmnt_id:\t 31\nino:\t2\n";
    assert_eq!(mount_id_from_fdinfo(fdinfo), Some(31));
    assert_eq!(mount_id_from_fdinfo("pos:\t0\n"), None);
    assert_eq!(mount_id_from_fdinfo("mnt_id: x\nmnt_id: 3"), None);
    let reply = MountIdReply { mask: 0x1fff, mount_id_bit: 0x1000, mount_id: 7 };
    let unfilled = MountIdReply { mask: 0x0fff, mount_id_bit: 0x1000, mount_id: 7 };
    assert_eq!(opened_mount(Some(fdinfo), Some(reply)), Some(31));
    assert_eq!(opened_mount(Some("pos:\t0\n"), Some(reply)), Some(7));
    assert_eq!(opened_mount(None, Some(reply)), Some(7));
    assert_eq!(opened_mount(None, Some(unfilled)), None);
    assert_eq!(opened_mount(None, None), None);
}

#[test]
fn devices_are_spelled_by_major_and_minor_number() {
    assert_eq!(device_text(0x801), "8:1");
    assert_eq!(device_text(0x1f), "0:31");
    assert_eq!(device_text(0x1030_0fe5), "15:66533");
    assert_eq!(device_text(u64::MAX), "4294967295:4294967295");
}

#[test]
fn discovery_checks_the_mount_of_the_open_directory() {
    let mounts = b"1 0 8:1 / / rw\n31 1 8:1 /backing /tmp rw\n";
    let found =
        discover_daemon_socket_mounts(DIRECTORY, 0x801, Some("mnt_id:\t31\n"), None, mounts, None)
            .unwrap();
    assert_eq!(
        paths(&found),
        sorted(&["/backing/codex-daemon-1000", "/tmp/codex-daemon-1000"])
    );
    assert!(discover_daemon_socket_mounts(DIRECTORY, 0x801, Some("mnt_id:\t1\n"), None, mounts, None)
        .is_err());
    assert!(discover_daemon_socket_mounts(DIRECTORY, 0x801, None, None, mounts, None).is_err());
    assert!(discover_daemon_socket_mounts(DIRECTORY, 0x802, Some("mnt_id:\t31\n"), None, mounts, None)
        .is_err());
}
