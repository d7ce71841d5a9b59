use gbandit::deploy_archive::{
    build_project_archive_in, is_packed, no_project_directory, EntryKind, Member, WalkEntry,
};

fn entry(path: &str, kind: EntryKind) -> WalkEntry {
    WalkEntry { path: path.to_string(), kind }
}

fn path_of(entries: &[WalkEntry], member: Member) -> String {
    match member {
        Member::Config => "gbandit.jsonc".to_string(),
        Member::Dir(i) => entries[i].path.clone(),
        Member::File(i) => entries[i].path.clone(),
    }
}

/// Packs the members with `tar` and `zstd`, and lists what unpacking finds.
fn archive_entries(entries: &[WalkEntry], members: &[Member]) -> Vec<String> {
    let mut tar = tar::Builder::new(Vec::new());
    for member in members {
        let mut header = tar::Header::new_gnu();
        header.set_size(0);
        header.set_mode(0o644);
        if let Member::Dir(_) = member {
            header.set_entry_type(tar::EntryType::Directory);
        }
        tar.append_data(&mut header, path_of(entries, *member), &[][..]).unwrap();
    }
    let bytes = zstd::encode_all(&tar.into_inner().unwrap()[..], 3).unwrap();
    let plain = zstd::decode_all(&bytes[..]).unwrap();
    let mut tar = tar::Archive::new(&plain[..]);
    tar.entries()
        .unwrap()
        .map(|entry| entry.unwrap().path().unwrap().to_string_lossy().into_owned())
        .collect()
}

#[test]
fn project_archive_puts_config_first_without_duplicates() {
    let walked = vec![
        entry("", EntryKind::Dir),
        entry("frontend", EntryKind::Dir),
        entry("frontend/index.html", EntryKind::File),
        entry("gbandit.jsonc", EntryKind::File),
    ];
    let members = build_project_archive_in(true, &walked);
    let entries = archive_entries(&walked, &members);
    assert_eq!(entries.first().map(String::as_str), Some("gbandit.jsonc"));
    assert_eq!(
        entries.iter().filter(|e| *e == "gbandit.jsonc").count(),
        1,
        "{entries:?}"
    );
    assert!(
        entries.contains(&"frontend/index.html".to_string()),
        "{entries:?}"
    );
}

#[test]
fn members_keep_the_order_of_the_walk() {
    let walked = vec![
        entry("", EntryKind::Dir),
        entry("b", EntryKind::Dir),
        entry("b/link", EntryKind::Other),
        entry("b/gbandit.jsonc", EntryKind::File),
        entry("a.txt", EntryKind::File),
    ];
    assert_eq!(
        build_project_archive_in(false, &walked),
        vec![Member::Dir(1), Member::File(3), Member::File(4)]
    );
    assert_eq!(
        build_project_archive_in(true, &walked),
        vec![Member::Config, Member::Dir(1), Member::File(3), Member::File(4)]
    );
    assert_eq!(build_project_archive_in(false, &Vec::new()), Vec::new());
}

#[test]
fn only_git_is_left_out_of_the_walk() {
    assert!(!is_packed(Some(".git")));
    assert!(is_packed(Some(".gitignore")));
    assert!(is_packed(Some("git")));
    assert!(is_packed(None));
}

#[test]
fn a_missing_directory_is_named() {
    assert_eq!(no_project_directory("./x"), "project directory not found: ./x");
}
