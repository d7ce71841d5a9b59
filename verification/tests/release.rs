use std::io::{Cursor, Write};

use gbandit::outside::ZipEntry;
use gbandit::printer::Notice;
use gbandit::release_installer::{
    archive_extension, asset_name, binary_file_name, binary_found, cli_install_path,
    download_failed, download_reply, download_url, downloading, extract_archive,
    extract_entry, first_swap,
    install, is_cargo_target_binary, latest_release_tag, latest_release_url, release_target,
    replace_binary, swap_failure, up_to_date, updated, InstallPlace, InstallStep, Swap, ZipStep,
};

fn text(notice: Notice) -> String {
    match notice {
        Notice::Progress(text) => text,
        other => panic!("{other:?}"),
    }
}

#[test]
fn releases_are_named_after_machines() {
    assert_eq!(release_target("linux", "x86_64").unwrap(), "x86_64-unknown-linux-musl");
    assert_eq!(release_target("macos", "aarch64").unwrap(), "aarch64-apple-darwin");
    assert_eq!(release_target("windows", "x86_64").unwrap(), "x86_64-pc-windows-msvc");
    assert_eq!(
        release_target("freebsd", "mips").unwrap_err(),
        "unsupported OS for self-update: freebsd"
    );
    assert_eq!(
        release_target("linux", "mips").unwrap_err(),
        "unsupported architecture for self-update: mips"
    );
    assert_eq!(archive_extension(true), "zip");
    assert_eq!(archive_extension(false), "tar.gz");
    assert_eq!(binary_file_name(true), "gbandit.exe");
    assert_eq!(binary_file_name(false), "gbandit");
    assert_eq!(asset_name("t", false), "gbandit-t.tar.gz");
    assert_eq!(asset_name("t", true), "gbandit-t.zip");
    assert_eq!(
        download_url("v1", "a.zip"),
        "https://github.com/gbandit/cli/releases/download/v1/a.zip"
    );
    assert_eq!(
        latest_release_url(),
        "https://api.github.com/repos/gbandit/cli/releases/latest"
    );
}

#[test]
fn the_latest_release_is_not_installed_twice() {
    assert_eq!(
        up_to_date(None, "v1", "v1").map(text).as_deref(),
        Some("gbandit is already up to date (v1).")
    );
    assert!(up_to_date(None, "v2", "v1").is_none());
    assert!(up_to_date(Some("v1"), "v1", "v1").is_none());
    match install(None, "v1", "v1", "plan9", "mips", false).unwrap() {
        InstallStep::UpToDate(n) => assert_eq!(text(n), "gbandit is already up to date (v1)."),
        other => panic!("{other:?}"),
    }
    match install(Some("v1"), "v1", "v1", "linux", "aarch64", false).unwrap() {
        InstallStep::Download { say, asset, url } => {
            assert_eq!(text(say), "Downloading gbandit v1 for aarch64-unknown-linux-musl...");
            assert_eq!(asset, "gbandit-aarch64-unknown-linux-musl.tar.gz");
            assert_eq!(
                url,
                "https://github.com/gbandit/cli/releases/download/v1/gbandit-aarch64-unknown-linux-musl.tar.gz"
            );
        }
        other => panic!("{other:?}"),
    }
    assert_eq!(
        install(None, "v2", "v1", "plan9", "mips", false).unwrap_err(),
        "unsupported OS for self-update: plan9"
    );
    assert_eq!(text(downloading("v2", "t")), "Downloading gbandit v2 for t...");
    assert_eq!(text(updated("v1", "v2", "/bin/g")), "Updated gbandit from v1 to v2: /bin/g");
}

#[test]
fn downloads_that_fail_are_told() {
    assert!(download_reply(200, "v1", "a", "u").is_ok());
    assert_eq!(
        download_reply(404, "v1", "a", "u").unwrap_err(),
        "release v1 does not provide a (or the tag does not exist) — see available releases at https://github.com/gbandit/cli/releases"
    );
    assert_eq!(
        download_reply(503, "v1", "a", "u").unwrap_err(),
        "failed to download u: 503 Service Unavailable"
    );
    assert_eq!(download_failed("u"), "failed to download u");
    assert!(latest_release_tag(204).is_ok());
    assert_eq!(
        latest_release_tag(403).unwrap_err(),
        "failed to check latest gbandit release: 403 Forbidden"
    );
    assert_eq!(
        latest_release_tag(799).unwrap_err(),
        "failed to check latest gbandit release: 799 <unknown status code>"
    );
    assert!(binary_found(true).is_ok());
    assert_eq!(
        binary_found(false).unwrap_err(),
        "release archive did not contain a gbandit binary"
    );
}

fn entry(place: Option<&str>, is_dir: bool, content: Result<&[u8], &str>) -> ZipEntry {
    ZipEntry {
        name: "n".to_string(),
        place: place.map(str::to_string),
        is_dir,
        content: content.map(<[u8]>::to_vec).map_err(str::to_string),
    }
}

#[test]
fn entries_that_lead_out_of_the_directory_are_passed_over() {
    let step = |e: ZipEntry| extract_entry(Ok(e));
    assert!(matches!(step(entry(None, false, Ok(b"x"))), ZipStep::PassOver));
    assert!(matches!(step(entry(None, true, Ok(b""))), ZipStep::PassOver));
    assert!(matches!(step(entry(None, false, Err("bad"))), ZipStep::PassOver));
    assert!(matches!(step(entry(Some("a"), true, Ok(b""))), ZipStep::MakeDir(p) if p == "a"));
    assert!(matches!(step(entry(Some("a"), true, Err("bad"))), ZipStep::MakeDir(p) if p == "a"));
    assert!(matches!(
        step(entry(Some("a/b"), false, Ok(b"xy"))),
        ZipStep::Write(p, c) if p == "a/b" && c == b"xy"
    ));
    assert!(matches!(
        step(entry(Some("a/b"), false, Err("bad"))),
        ZipStep::Break(p, why) if p == "a/b" && why == "bad"
    ));
    match extract_entry(Err("why".to_string())) {
        ZipStep::Fail(fault) => {
            assert_eq!(fault.message, "failed to read zip entry");
            assert_eq!(fault.cause.as_deref(), Some("why"));
        }
        other => panic!("{other:?}"),
    }
}

fn zipped(deflated: bool) -> Vec<u8> {
    let method = if deflated {
        zip::CompressionMethod::Deflated
    } else {
        zip::CompressionMethod::Stored
    };
    let options = zip::write::SimpleFileOptions::default().compression_method(method);
    let mut zip = zip::ZipWriter::new(Cursor::new(Vec::new()));
    zip.start_file("gbandit.exe", options).unwrap();
    zip.write_all(b"program program program program").unwrap();
    zip.add_directory("doc", options).unwrap();
    zip.start_file("doc/a.txt", options).unwrap();
    zip.write_all(b"words").unwrap();
    zip.start_file("../out.txt", options).unwrap();
    zip.write_all(b"away").unwrap();
    zip.finish().unwrap().into_inner()
}

#[test]
fn an_archive_is_unpacked_entry_by_entry() {
    for deflated in [false, true] {
        let bytes = zipped(deflated);
        let steps = extract_archive(&bytes).unwrap();
        assert_eq!(steps.len(), 4);
        assert!(matches!(
            &steps[0],
            ZipStep::Write(p, c) if p == "gbandit.exe" && c == b"program program program program"
        ));
        assert!(matches!(&steps[1], ZipStep::MakeDir(p) if p == "doc/"));
        assert!(matches!(&steps[2], ZipStep::Write(p, c) if p == "doc/a.txt" && c == b"words"));
        assert!(matches!(&steps[3], ZipStep::PassOver));
    }
}

#[test]
fn an_entry_is_unpacked_where_its_name_leads_below() {
    let options = zip::write::SimpleFileOptions::default()
        .compression_method(zip::CompressionMethod::Stored);
    for (name, below) in [
        ("a", true),
        ("a/b/c.txt", true),
        (".hidden", true),
        ("a/../b", true),
        ("./a", true),
        ("a//b", true),
        ("...", true),
        ("..a/b", true),
        ("..", false),
        ("../a", false),
        ("a/../../b", false),
        ("/a", false),
        ("//a", false),
        ("a\0b", false),
    ] {
        let mut zip = zip::ZipWriter::new(Cursor::new(Vec::new()));
        zip.start_file(name, options).unwrap();
        zip.write_all(b"x").unwrap();
        let bytes = zip.finish().unwrap().into_inner();
        match &extract_archive(&bytes).unwrap()[..] {
            [ZipStep::Write(place, content)] => {
                assert!(below, "{name}");
                assert_eq!((place.as_str(), &content[..]), (name, &b"x"[..]));
            }
            [ZipStep::PassOver] => assert!(!below, "{name}"),
            other => panic!("{name}: {other:?}"),
        }
    }
}

#[test]
fn bytes_that_are_no_archive_are_refused() {
    let failure = extract_archive(b"not a zip").unwrap_err();
    assert_eq!(failure.message, "failed to open release zip");
    assert_eq!(failure.cause.as_deref(), Some("invalid Zip archive: Could not find EOCD"));
    let empty = zip::ZipWriter::new(Cursor::new(Vec::new())).finish().unwrap().into_inner();
    assert!(extract_archive(&empty).unwrap().is_empty());
}

#[test]
fn damaged_contents_fail_where_they_would_be_written() {
    let mut bytes = zipped(false);
    let at = bytes.windows(5).position(|w| w == b"words").unwrap();
    bytes[at] = b'W';
    let steps = extract_archive(&bytes).unwrap();
    assert!(matches!(
        &steps[2],
        ZipStep::Break(p, why) if p == "doc/a.txt" && why == "Invalid checksum"
    ));
    assert!(matches!(&steps[0], ZipStep::Write(_, _)));

    let mut bytes = zipped(false);
    let at = bytes.windows(4).position(|w| w == b"away").unwrap();
    bytes[at] = b'A';
    assert!(matches!(&extract_archive(&bytes).unwrap()[3], ZipStep::PassOver));

    let mut bytes = zipped(false);
    bytes[0] = b'Q';
    match &extract_archive(&bytes).unwrap()[0] {
        ZipStep::Fail(failure) => {
            assert_eq!(failure.message, "failed to read zip entry");
            assert!(failure.cause.is_some());
        }
        other => panic!("{other:?}"),
    }
}

#[test]
fn a_program_that_was_built_here_is_installed_elsewhere() {
    let parts = |list: &[&str]| {
        list.iter()
            .map(|p| if *p == "/" { None } else { Some(p.to_string()) })
            .collect::<Vec<Option<String>>>()
    };
    assert!(is_cargo_target_binary(&parts(&["/", "w", "target", "debug", "gbandit"])));
    assert!(is_cargo_target_binary(&parts(&["target", "release"])));
    assert!(!is_cargo_target_binary(&parts(&["target", "x86_64", "release", "gbandit"])));
    assert!(!is_cargo_target_binary(&parts(&["target", "/", "debug"])));
    assert!(!is_cargo_target_binary(&parts(&["debug", "target"])));
    assert!(is_cargo_target_binary(&parts(&["target", "target", "release"])));
    assert!(!is_cargo_target_binary(&vec![]));
    assert_eq!(cli_install_path(true, true), InstallPlace::Chosen);
    assert_eq!(cli_install_path(false, true), InstallPlace::LocalBin);
    assert_eq!(cli_install_path(false, false), InstallPlace::Current);
}

#[test]
fn a_program_is_swapped_in_steps() {
    assert_eq!(first_swap(true), Swap::MakeDir);
    assert_eq!(first_swap(false), Swap::ClearStaged);
    let mut step = first_swap(true);
    let mut seen = vec![step];
    while step != Swap::Done {
        step = replace_binary(step, true, true, false);
        seen.push(step);
    }
    assert_eq!(
        seen,
        vec![
            Swap::MakeDir,
            Swap::ClearStaged,
            Swap::ClearBackup,
            Swap::Stage,
            Swap::SetAside,
            Swap::Install,
            Swap::DropBackup,
            Swap::Done
        ]
    );
    assert_eq!(replace_binary(Swap::Stage, true, false, false), Swap::Install);
    assert_eq!(replace_binary(Swap::ClearStaged, false, true, false), Swap::ClearBackup);
    assert_eq!(replace_binary(Swap::ClearBackup, false, true, true), Swap::Stage);
    assert_eq!(replace_binary(Swap::DropBackup, false, true, true), Swap::Done);
}

#[test]
fn a_swap_that_fails_puts_the_old_program_back() {
    assert_eq!(replace_binary(Swap::Install, false, false, true), Swap::Restore);
    assert_eq!(replace_binary(Swap::Restore, true, true, false), Swap::NotInstalled);
    assert_eq!(replace_binary(Swap::Install, false, false, false), Swap::NotInstalled);
    assert_eq!(replace_binary(Swap::MakeDir, false, true, false), Swap::NoDir);
    assert_eq!(replace_binary(Swap::Stage, false, true, false), Swap::NotStaged);
    assert_eq!(replace_binary(Swap::SetAside, false, true, false), Swap::NotSetAside);
    let said = |step: Swap| swap_failure(step, "/d", "/d/g.new", "/d/g.old", "/d/g");
    assert_eq!(said(Swap::NoDir).as_deref(), Some("failed to create install directory /d"));
    assert_eq!(said(Swap::NotStaged).as_deref(), Some("failed to stage updated binary at /d/g.new"));
    assert_eq!(said(Swap::NotSetAside).as_deref(), Some("failed to move current binary to /d/g.old"));
    assert_eq!(said(Swap::NotInstalled).as_deref(), Some("failed to install updated binary at /d/g"));
    assert_eq!(said(Swap::Done), None);
}
