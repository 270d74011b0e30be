use rustssh::error::ErrorKind;
use rustssh::sftp::{
    download_file, get_home_dir, is_pseudo_name, join_path, list_dir, make_entry, mkdir, open_sftp,
    remove_dir, remove_file, rename, set_permissions, sort_entries, step_failure, subsystem,
    upload_file, DirItem, FileAttrs, FileEntry, KeyedEntry, SftpCall, SftpStep,
};

const DIR_MODE: u32 = 0o040755;
const FILE_MODE: u32 = 0o100644;

fn attrs(permissions: Option<u32>) -> FileAttrs {
    FileAttrs { size: None, uid: None, gid: None, permissions, atime: None, mtime: None }
}

fn dir(name: &str) -> DirItem {
    DirItem { name: name.to_string(), attrs: attrs(Some(DIR_MODE)) }
}

fn file(name: &str) -> DirItem {
    DirItem { name: name.to_string(), attrs: attrs(Some(FILE_MODE)) }
}

fn names(entries: &[FileEntry]) -> Vec<String> {
    entries.iter().map(|e| e.name.clone()).collect()
}

fn keyed(name: &str, is_dir: bool, folded: &str) -> KeyedEntry {
    KeyedEntry {
        entry: FileEntry {
            name: name.to_string(),
            path: format!("/{}", name),
            is_dir,
            size: 0,
            modified: None,
            permissions: None,
            uid: None,
            gid: None,
        },
        folded: folded.chars().collect(),
    }
}

#[test]
fn listing_puts_directories_first_and_ignores_case() {
    let out = list_dir("/srv", vec![dir("b_dir"), file("A_file"), dir("a_dir")]);
    assert_eq!(names(&out), vec!["a_dir", "b_dir", "A_file"]);
}

#[test]
fn listing_orders_by_lower_cased_name() {
    let out = list_dir("/srv", vec![file("b"), file("A"), file("c"), file("Zeta"), file("alpha")]);
    assert_eq!(names(&out), vec!["A", "alpha", "b", "c", "Zeta"]);
}

#[test]
fn listing_lower_cases_beyond_ascii() {
    let out = list_dir("/srv", vec![file("Öl"), file("ähre"), file("Ärger"), file("öde")]);
    assert_eq!(names(&out), vec!["ähre", "Ärger", "öde", "Öl"]);
}

#[test]
fn listing_leaves_out_the_pseudo_entries() {
    let out = list_dir("/srv", vec![dir("."), dir(".."), file(".hidden"), dir("..."), file("x")]);
    assert_eq!(names(&out), vec!["...", ".hidden", "x"]);
}

#[test]
fn listing_of_nothing_is_empty() {
    assert!(list_dir("/srv", Vec::new()).is_empty());
    assert!(list_dir("/srv", vec![dir("."), dir("..")]).is_empty());
}

#[test]
fn listing_keeps_the_given_order_among_equal_keys() {
    let first = list_dir("/srv", vec![file("README"), file("readme"), file("Readme")]);
    assert_eq!(names(&first), vec!["README", "readme", "Readme"]);
    let second = list_dir("/srv", vec![file("readme"), file("Readme"), file("README")]);
    assert_eq!(names(&second), vec!["readme", "Readme", "README"]);
}

#[test]
fn listing_keeps_every_entry_once() {
    let out = list_dir(
        "/srv",
        vec![file("x"), dir("x"), file("y"), file("x"), dir("a"), file("."), dir("y")],
    );
    assert_eq!(names(&out), vec!["a", "x", "y", "x", "x", "y"]);
    let kinds: Vec<bool> = out.iter().map(|e| e.is_dir).collect();
    assert_eq!(kinds, vec![true, true, true, false, false, false]);
}

#[test]
fn listing_joins_the_path_with_one_slash() {
    let out = list_dir("/srv/www", vec![file("index.html")]);
    assert_eq!(out[0].path, "/srv/www/index.html");
    let out = list_dir("/srv/www/", vec![file("index.html")]);
    assert_eq!(out[0].path, "/srv/www/index.html");
    let out = list_dir("/", vec![file("etc")]);
    assert_eq!(out[0].path, "/etc");
    let out = list_dir("", vec![file("etc")]);
    assert_eq!(out[0].path, "/etc");
    let out = list_dir(".", vec![file("etc")]);
    assert_eq!(out[0].path, "./etc");
}

#[test]
fn join_path_adds_a_slash_where_none_ends_the_directory() {
    assert_eq!(join_path("/a", "b"), "/a/b");
    assert_eq!(join_path("/a/", "b"), "/a/b");
    assert_eq!(join_path("/a//", "b"), "/a//b");
    assert_eq!(join_path("/a", ""), "/a/");
}

#[test]
fn pseudo_names_are_dot_and_dot_dot() {
    assert!(is_pseudo_name("."));
    assert!(is_pseudo_name(".."));
    assert!(!is_pseudo_name("..."));
    assert!(!is_pseudo_name(""));
    assert!(!is_pseudo_name(".a"));
    assert!(!is_pseudo_name("a."));
}

#[test]
fn entry_carries_the_attributes() {
    let item = DirItem {
        name: "data.bin".to_string(),
        attrs: FileAttrs {
            size: Some(4096),
            uid: Some(1000),
            gid: Some(100),
            permissions: Some(FILE_MODE),
            atime: Some(7),
            mtime: Some(1_700_000_000),
        },
    };
    let e = make_entry("/srv", item);
    assert_eq!(e.name, "data.bin");
    assert_eq!(e.path, "/srv/data.bin");
    assert!(!e.is_dir);
    assert_eq!(e.size, 4096);
    assert_eq!(e.modified, Some(1_700_000_000));
    assert_eq!(e.permissions, Some(FILE_MODE));
    assert_eq!(e.uid, Some(1000));
    assert_eq!(e.gid, Some(100));
}

#[test]
fn entry_without_attributes_has_size_zero_and_no_time() {
    let e = make_entry("/srv", DirItem { name: "x".to_string(), attrs: attrs(None) });
    assert!(!e.is_dir);
    assert_eq!(e.size, 0);
    assert_eq!(e.modified, None);
    assert_eq!(e.permissions, None);
    assert_eq!(e.uid, None);
    assert_eq!(e.gid, None);
}

#[test]
fn entry_time_is_in_seconds_since_the_epoch() {
    let mut a = attrs(None);
    a.mtime = Some(0);
    assert_eq!(make_entry("/", DirItem { name: "x".to_string(), attrs: a }).modified, Some(0));
    a.mtime = Some(u32::MAX);
    assert_eq!(
        make_entry("/", DirItem { name: "x".to_string(), attrs: a }).modified,
        Some(4_294_967_295)
    );
    a.mtime = None;
    a.atime = Some(5);
    assert_eq!(make_entry("/", DirItem { name: "x".to_string(), attrs: a }).modified, None);
}

#[test]
fn entry_size_is_the_reported_size() {
    let mut a = attrs(Some(FILE_MODE));
    a.size = Some(u64::MAX);
    assert_eq!(make_entry("/", DirItem { name: "x".to_string(), attrs: a }).size, u64::MAX);
    a.size = Some(0);
    assert_eq!(make_entry("/", DirItem { name: "x".to_string(), attrs: a }).size, 0);
}

#[test]
fn directory_flag_decides_what_is_a_directory() {
    let is_dir = |mode: Option<u32>| {
        make_entry("/", DirItem { name: "x".to_string(), attrs: attrs(mode) }).is_dir
    };
    assert!(is_dir(Some(0o040755)));
    assert!(is_dir(Some(0x4000)));
    assert!(!is_dir(Some(0o100644)));
    assert!(!is_dir(Some(0o120777)));
    assert!(!is_dir(Some(0o755)));
    assert!(!is_dir(Some(0)));
    assert!(!is_dir(None));
    assert!(is_dir(Some(0x6000)));
    assert!(is_dir(Some(0xC000)));
    assert!(is_dir(Some(u32::MAX)));
}

#[test]
fn sort_entries_goes_by_the_given_keys() {
    let out = sort_entries(vec![
        keyed("one", false, "b"),
        keyed("two", true, "z"),
        keyed("three", false, "a"),
        keyed("four", true, "y"),
    ]);
    let names: Vec<&str> = out.iter().map(|k| k.entry.name.as_str()).collect();
    assert_eq!(names, vec!["four", "two", "three", "one"]);
}

#[test]
fn sort_entries_is_stable() {
    let out = sort_entries(vec![
        keyed("first", false, "k"),
        keyed("second", false, "k"),
        keyed("third", false, "a"),
        keyed("fourth", false, "k"),
    ]);
    let names: Vec<&str> = out.iter().map(|k| k.entry.name.as_str()).collect();
    assert_eq!(names, vec!["third", "first", "second", "fourth"]);
}

#[test]
fn sort_entries_of_nothing_and_of_one() {
    assert!(sort_entries(Vec::new()).is_empty());
    let one = sort_entries(vec![keyed("only", true, "only")]);
    assert_eq!(one.len(), 1);
    assert_eq!(one[0].entry.name, "only");
}

#[test]
fn sort_entries_puts_a_prefix_before_its_extensions() {
    let out = sort_entries(vec![
        keyed("c", false, "abc"),
        keyed("a", false, "a"),
        keyed("e", false, ""),
        keyed("b", false, "ab"),
    ]);
    let names: Vec<&str> = out.iter().map(|k| k.entry.name.as_str()).collect();
    assert_eq!(names, vec!["e", "a", "b", "c"]);
}

#[test]
fn chmod_sets_the_permission_bits_and_nothing_else() {
    match set_permissions("/srv/run.sh", 0o755) {
        SftpCall::SetMetadata { path, attrs } => {
            assert_eq!(path, "/srv/run.sh");
            assert_eq!(attrs.permissions, Some(0o755));
            assert_eq!(attrs.size, None);
            assert_eq!(attrs.uid, None);
            assert_eq!(attrs.gid, None);
            assert_eq!(attrs.atime, None);
            assert_eq!(attrs.mtime, None);
        }
        other => panic!("not a metadata call: {:?}", other),
    }
}

#[test]
fn calls_carry_their_paths() {
    assert!(matches!(get_home_dir(), SftpCall::Canonicalize { ref path } if path == "."));
    assert!(matches!(
        download_file("/r", "/l"),
        SftpCall::Download { ref remote_path, ref local_path } if remote_path == "/r" && local_path == "/l"
    ));
    assert!(matches!(
        upload_file("/l", "/r"),
        SftpCall::Upload { ref local_path, ref remote_path } if remote_path == "/r" && local_path == "/l"
    ));
    assert!(matches!(mkdir("/d"), SftpCall::CreateDir { ref path } if path == "/d"));
    assert!(matches!(remove_file("/f"), SftpCall::RemoveFile { ref path } if path == "/f"));
    assert!(matches!(remove_dir("/d"), SftpCall::RemoveDir { ref path } if path == "/d"));
    assert!(matches!(
        rename("/a", "/b"),
        SftpCall::Rename { ref from, ref to } if from == "/a" && to == "/b"
    ));
}

#[test]
fn calls_are_made_of_their_steps() {
    assert_eq!(
        download_file("/r", "/l").steps(),
        vec![SftpStep::OpenRemote, SftpStep::ReadRemote, SftpStep::WriteLocal]
    );
    assert_eq!(
        upload_file("/l", "/r").steps(),
        vec![
            SftpStep::ReadLocal,
            SftpStep::CreateRemote,
            SftpStep::WriteRemote,
            SftpStep::CloseRemote
        ]
    );
    assert_eq!(get_home_dir().steps(), vec![SftpStep::Canonicalize]);
    assert_eq!(SftpCall::ReadDir { path: "/".to_string() }.steps(), vec![SftpStep::ReadDir]);
    assert_eq!(mkdir("/d").steps(), vec![SftpStep::CreateDir]);
    assert_eq!(remove_file("/f").steps(), vec![SftpStep::RemoveFile]);
    assert_eq!(remove_dir("/d").steps(), vec![SftpStep::RemoveDir]);
    assert_eq!(rename("/a", "/b").steps(), vec![SftpStep::Rename]);
    assert_eq!(set_permissions("/a", 0o600).steps(), vec![SftpStep::SetMetadata]);
}

#[test]
fn the_file_service_is_opened_in_three_steps() {
    assert_eq!(
        open_sftp(),
        vec![SftpStep::OpenChannel, SftpStep::RequestSubsystem, SftpStep::StartSession]
    );
    assert_eq!(subsystem(), "sftp");
}

#[test]
fn step_failures_have_kind_and_text() {
    let cases = [
        (SftpStep::OpenChannel, ErrorKind::ChannelSetup, "Failed to open SFTP channel: why"),
        (
            SftpStep::RequestSubsystem,
            ErrorKind::ChannelSetup,
            "Failed to request SFTP subsystem: why",
        ),
        (SftpStep::StartSession, ErrorKind::RemoteOperation, "Failed to create SFTP session: why"),
        (SftpStep::Canonicalize, ErrorKind::RemoteOperation, "Failed to get home directory: why"),
        (SftpStep::ReadDir, ErrorKind::RemoteOperation, "Failed to read directory: why"),
        (SftpStep::OpenRemote, ErrorKind::RemoteOperation, "Failed to open remote file: why"),
        (SftpStep::ReadRemote, ErrorKind::RemoteOperation, "Failed to read remote file: why"),
        (SftpStep::WriteLocal, ErrorKind::Io, "Failed to write local file: why"),
        (SftpStep::ReadLocal, ErrorKind::Io, "Failed to read local file: why"),
        (SftpStep::CreateRemote, ErrorKind::RemoteOperation, "Failed to create remote file: why"),
        (SftpStep::WriteRemote, ErrorKind::RemoteOperation, "Failed to write remote file: why"),
        (SftpStep::CloseRemote, ErrorKind::RemoteOperation, "Failed to close remote file: why"),
        (SftpStep::CreateDir, ErrorKind::RemoteOperation, "Failed to create directory: why"),
        (SftpStep::RemoveFile, ErrorKind::RemoteOperation, "Failed to remove file: why"),
        (SftpStep::RemoveDir, ErrorKind::RemoteOperation, "Failed to remove directory: why"),
        (SftpStep::Rename, ErrorKind::RemoteOperation, "Failed to rename: why"),
        (SftpStep::SetMetadata, ErrorKind::RemoteOperation, "Failed to set permissions: why"),
    ];
    for (step, kind, text) in cases {
        let e = step_failure(step, "why");
        assert_eq!(e.kind, kind);
        assert_eq!(e.message, text);
    }
    assert_eq!(step_failure(SftpStep::Rename, "").message, "Failed to rename: ");
}
