//! Updating the command line from its releases.

use vstd::prelude::*;
use vstd::string::*;

use crate::fault::{caused, Fault, FaultView};
use crate::http::{is_status, is_success, success};
use crate::outside::{
    leads_below, portable, read_zip, status_display, status_line, stored, well_placed,
    zip_contents, Stored, ZipEntry,
};
use crate::printer::{Notice, NoticeView};
use crate::text::{
    contains, ends_with, law_texts_contain_their_parts, opt_str, opt_text, same, starts_with,
};

verus! {

// ---------------------------------------------------------------------------
// Which release
// ---------------------------------------------------------------------------

/// The kind of archive that a release has.
pub fn archive_extension(windows: bool) -> (r: &'static str)
    ensures
        r@ == if windows {
            "zip"@
        } else {
            "tar.gz"@
        },
{
    if windows {
        "zip"
    } else {
        "tar.gz"
    }
}

/// The name of the program's file.
pub fn binary_file_name(windows: bool) -> (r: &'static str)
    ensures
        r@ == if windows {
            "gbandit.exe"@
        } else {
            "gbandit"@
        },
{
    if windows {
        "gbandit.exe"
    } else {
        "gbandit"
    }
}

/// How releases name an operating system.
pub open spec fn os_part(os: Seq<char>) -> Option<Seq<char>> {
    if os == "linux"@ {
        Some("unknown-linux-musl"@)
    } else if os == "macos"@ {
        Some("apple-darwin"@)
    } else if os == "windows"@ {
        Some("pc-windows-msvc"@)
    } else {
        None
    }
}

/// Whether there are releases for an architecture.
pub open spec fn known_arch(arch: Seq<char>) -> bool {
    arch == "x86_64"@ || arch == "aarch64"@
}

/// How releases name a machine.
pub open spec fn target(os: Seq<char>, arch: Seq<char>) -> Result<Seq<char>, Seq<char>> {
    match os_part(os) {
        None => Err("unsupported OS for self-update: "@ + os),
        Some(part) => if known_arch(arch) {
            Ok(arch + "-"@ + part)
        } else {
            Err("unsupported architecture for self-update: "@ + arch)
        },
    }
}

/// How releases name a machine.
pub fn release_target(os: &str, arch: &str) -> (r: Result<String, String>)
    ensures
        match r {
            Ok(name) => target(os@, arch@) == Ok::<Seq<char>, Seq<char>>(name@),
            Err(m) => target(os@, arch@) == Err::<Seq<char>, Seq<char>>(m@),
        },
{
    let part = if same(os, "linux") {
        "unknown-linux-musl"
    } else if same(os, "macos") {
        "apple-darwin"
    } else if same(os, "windows") {
        "pc-windows-msvc"
    } else {
        return Err("unsupported OS for self-update: ".to_string().concat(os));
    };
    if same(arch, "x86_64") || same(arch, "aarch64") {
        Ok(arch.to_string().concat("-").concat(part))
    } else {
        Err("unsupported architecture for self-update: ".to_string().concat(arch))
    }
}

/// The file of a release for a machine.
pub open spec fn asset(target: Seq<char>, windows: bool) -> Seq<char> {
    "gbandit-"@ + target + "."@ + if windows {
        "zip"@
    } else {
        "tar.gz"@
    }
}

/// The file of a release for a machine.
pub fn asset_name(target: &str, windows: bool) -> (r: String)
    ensures
        r@ == asset(target@, windows),
{
    "gbandit-".to_string().concat(target).concat(".").concat(archive_extension(windows))
}

/// Where a release's file is found.
pub fn download_url(tag: &str, asset: &str) -> (r: String)
    ensures
        r@ == "https://github.com/gbandit/cli/releases/download/"@ + tag@ + "/"@ + asset@,
{
    "https://github.com/gbandit/cli/releases/download/".to_string().concat(tag).concat("/").concat(
        asset,
    )
}

/// Where the latest release is asked for.
pub fn latest_release_url() -> (r: String)
    ensures
        r@ == "https://api.github.com/repos/gbandit/cli/releases/latest"@,
{
    "https://api.github.com/repos/gbandit/cli/releases/latest".to_string()
}

/// Whether the reply to the question for the latest release can be read; else what to say.
pub fn latest_release_tag(status: u16) -> (r: Result<(), String>)
    requires
        is_status(status),
    ensures
        match r {
            Ok(()) => success(status),
            Err(m) => !success(status) && m@ == "failed to check latest gbandit release: "@
                + status_display(status),
        },
{
    if is_success(status) {
        return Ok(());
    }
    Err(
        "failed to check latest gbandit release: ".to_string().concat(status_line(status).as_str()),
    )
}

/// What is said where there is nothing to update: the latest release is the one that runs,
/// and no other was asked for.
pub fn up_to_date(requested: Option<&str>, tag: &str, version: &str) -> (r: Option<Notice>)
    ensures
        if requested is None && tag@ == version@ {
            r matches Some(n) && n@ == NoticeView::Progress(
                "gbandit is already up to date ("@ + version@ + ")."@,
            )
        } else {
            r is None
        },
{
    if requested.is_none() && same(tag, version) {
        return Some(
            Notice::Progress(
                "gbandit is already up to date (".to_string().concat(version).concat(")."),
            ),
        );
    }
    None
}

/// What is said before a download.
pub fn downloading(tag: &str, target: &str) -> (r: Notice)
    ensures
        r@ == NoticeView::Progress("Downloading gbandit "@ + tag@ + " for "@ + target@ + "..."@),
{
    Notice::Progress(
        "Downloading gbandit ".to_string().concat(tag).concat(" for ").concat(target).concat("..."),
    )
}

/// What to do to update.
#[derive(Debug)]
pub enum InstallStep {
    /// Say this: there is nothing to do.
    UpToDate(Notice),
    /// Say this, and download the asset from there.
    Download { say: Notice, asset: String, url: String },
}

/// An [`InstallStep`], as characters.
pub enum InstallView {
    UpToDate(NoticeView),
    Download { say: NoticeView, asset: Seq<char>, url: Seq<char> },
}

impl View for InstallStep {
    type V = InstallView;

    open spec fn view(&self) -> InstallView {
        match self {
            InstallStep::UpToDate(notice) => InstallView::UpToDate(notice@),
            InstallStep::Download { say, asset, url } => InstallView::Download {
                say: say@,
                asset: asset@,
                url: url@,
            },
        }
    }
}

/// What an update to release `tag` comes to.
pub open spec fn install_outcome(
    requested: Option<Seq<char>>,
    tag: Seq<char>,
    version: Seq<char>,
    os: Seq<char>,
    arch: Seq<char>,
    windows: bool,
) -> Result<InstallView, Seq<char>> {
    if requested is None && tag == version {
        Ok(
            InstallView::UpToDate(
                NoticeView::Progress("gbandit is already up to date ("@ + version + ")."@),
            ),
        )
    } else {
        match target(os, arch) {
            Err(m) => Err(m),
            Ok(name) => Ok(
                InstallView::Download {
                    say: NoticeView::Progress(
                        "Downloading gbandit "@ + tag + " for "@ + name + "..."@,
                    ),
                    asset: asset(name, windows),
                    url: "https://github.com/gbandit/cli/releases/download/"@ + tag + "/"@ + asset(
                        name,
                        windows,
                    ),
                },
            ),
        }
    }
}

/// What to do to update to release `tag`. `requested` is the release that was asked for, if
/// one was; `version` is the one that runs, on a machine of this kind.
pub fn install(
    requested: Option<&str>,
    tag: &str,
    version: &str,
    os: &str,
    arch: &str,
    windows: bool,
) -> (r: Result<InstallStep, String>)
    ensures
        if requested is None && tag@ == version@ {
            r matches Ok(InstallStep::UpToDate(n)) && n@ == NoticeView::Progress(
                "gbandit is already up to date ("@ + version@ + ")."@,
            )
        } else {
            match target(os@, arch@) {
                Err(m) => r matches Err(e) && e@ == m,
                Ok(target) => r matches Ok(InstallStep::Download { say, asset: file, url }) && say@
                    == NoticeView::Progress(
                    "Downloading gbandit "@ + tag@ + " for "@ + target + "..."@,
                ) && file@ == asset(target, windows) && url@
                    == "https://github.com/gbandit/cli/releases/download/"@ + tag@ + "/"@ + asset(
                    target,
                    windows,
                ),
            }
        },
        match r {
            Ok(step) => install_outcome(opt_str(requested), tag@, version@, os@, arch@, windows)
                == Ok::<InstallView, Seq<char>>(step@),
            Err(m) => install_outcome(opt_str(requested), tag@, version@, os@, arch@, windows)
                == Err::<InstallView, Seq<char>>(m@),
        },
{
    match up_to_date(requested, tag, version) {
        Some(notice) => {
            return Ok(InstallStep::UpToDate(notice));
        },
        None => {},
    }
    match release_target(os, arch) {
        Err(m) => Err(m),
        Ok(name) => {
            let file = asset_name(name.as_str(), windows);
            let url = download_url(tag, file.as_str());
            Ok(InstallStep::Download { say: downloading(tag, name.as_str()), asset: file, url })
        },
    }
}

/// What to say of a download that was not answered.
pub fn download_failed(url: &str) -> (r: String)
    ensures
        r@ == "failed to download "@ + url@,
{
    "failed to download ".to_string().concat(url)
}

/// What is said of a download that failed.
pub open spec fn download_fault(
    status: u16,
    tag: Seq<char>,
    asset: Seq<char>,
    url: Seq<char>,
) -> Option<Seq<char>> {
    if success(status) {
        None
    } else if status == 404 {
        Some(
            "release "@ + tag + " does not provide "@ + asset
                + " (or the tag does not exist) — see available releases at https://github.com/gbandit/cli/releases"@,
        )
    } else {
        Some("failed to download "@ + url + ": "@ + status_display(status))
    }
}

/// Whether a download succeeded; else what to say.
pub fn download_reply(status: u16, tag: &str, asset: &str, url: &str) -> (r: Result<(), String>)
    requires
        is_status(status),
    ensures
        match r {
            Ok(()) => success(status),
            Err(m) => !success(status) && m@ == if status == 404 {
                "release "@ + tag@ + " does not provide "@ + asset@
                    + " (or the tag does not exist) — see available releases at https://github.com/gbandit/cli/releases"@
            } else {
                "failed to download "@ + url@ + ": "@ + status_display(status)
            },
        },
        download_fault(status, tag@, asset@, url@) == match r {
            Ok(_) => None,
            Err(m) => Some(m@),
        },
{
    if status == 404 {
        return Err(
            "release ".to_string().concat(tag).concat(" does not provide ").concat(asset).concat(
                " (or the tag does not exist) — see available releases at https://github.com/gbandit/cli/releases",
            ),
        );
    }
    if !is_success(status) {
        return Err(
            "failed to download ".to_string().concat(url).concat(": ").concat(
                status_line(status).as_str(),
            ),
        );
    }
    Ok(())
}

/// Whether the archive held the program; else what to say.
pub fn binary_found(found: bool) -> (r: Result<(), String>)
    ensures
        match r {
            Ok(()) => found,
            Err(m) => !found && m@ == "release archive did not contain a gbandit binary"@,
        },
{
    if found {
        Ok(())
    } else {
        Err("release archive did not contain a gbandit binary".to_string())
    }
}

/// What is said of an update.
pub fn updated(version: &str, tag: &str, path: &str) -> (r: Notice)
    ensures
        r@ == NoticeView::Progress(
            "Updated gbandit from "@ + version@ + " to "@ + tag@ + ": "@ + path@,
        ),
{
    Notice::Progress(
        "Updated gbandit from ".to_string().concat(version).concat(" to ").concat(tag).concat(
            ": ",
        ).concat(path),
    )
}

// ---------------------------------------------------------------------------
// Unpacking
// ---------------------------------------------------------------------------

/// What to do for an entry of a zip archive. What fails ends the unpacking.
#[derive(Debug)]
pub enum ZipStep {
    /// Its name leads out of the directory that it is unpacked into.
    PassOver,
    /// Create this directory.
    MakeDir(String),
    /// Create the directory of this file, and the file with these bytes.
    Write(String, Vec<u8>),
    /// Create the directory of this file, and the file; it then cannot be extracted, for
    /// the reason that the second text gives.
    Break(String, String),
    /// The entry cannot be read.
    Fail(Fault),
}

/// A [`ZipStep`], as characters and bytes.
pub enum ZipStepView {
    PassOver,
    MakeDir(Seq<char>),
    Write(Seq<char>, Seq<u8>),
    Break(Seq<char>, Seq<char>),
    Fail(FaultView),
}

impl View for ZipStep {
    type V = ZipStepView;

    open spec fn view(&self) -> ZipStepView {
        match self {
            ZipStep::PassOver => ZipStepView::PassOver,
            ZipStep::MakeDir(place) => ZipStepView::MakeDir(place@),
            ZipStep::Write(place, bytes) => ZipStepView::Write(place@, bytes@),
            ZipStep::Break(place, why) => ZipStepView::Break(place@, why@),
            ZipStep::Fail(fault) => ZipStepView::Fail(fault@),
        }
    }
}

/// What to do for an entry that belongs at `place`, if anywhere. The contents of a directory
/// do not matter, nor those of an entry that is passed over.
pub open spec fn zip_step(
    place: Option<Seq<char>>,
    entry: Result<Stored, Seq<char>>,
) -> ZipStepView {
    match entry {
        Err(why) => ZipStepView::Fail(caused("failed to read zip entry"@, why)),
        Ok(entry) => match place {
            None => ZipStepView::PassOver,
            Some(place) => if entry.is_dir {
                ZipStepView::MakeDir(place)
            } else {
                match entry.content {
                    Ok(bytes) => ZipStepView::Write(place, bytes),
                    Err(why) => ZipStepView::Break(place, why),
                }
            },
        },
    }
}

/// Whether `step` is what to do for an entry on some machine: at its own name, or nowhere.
/// Which of the two is the same on every machine for a portable name.
pub open spec fn due(step: ZipStepView, entry: Result<Stored, Seq<char>>) -> bool {
    match entry {
        Err(_) => step == zip_step(None, entry),
        Ok(e) => {
            ||| step == zip_step(Some(e.name), entry) && (portable(e.name) ==> leads_below(e.name))
            ||| step == zip_step(None, entry) && (portable(e.name) ==> !leads_below(e.name))
        },
    }
}

/// Unpacking writes a file under its own name and with its own contents or not at all. Of
/// portable names, it writes those that lead below the directory, where their contents can
/// be read, and passes all others over.
pub proof fn law_files_keep_name_and_contents(step: ZipStepView, entry: Stored)
    requires
        due(step, Ok(entry)),
    ensures
        step matches ZipStepView::Write(place, bytes) ==> place == entry.name && entry.content
            == Ok::<Seq<u8>, Seq<char>>(bytes) && !entry.is_dir,
        portable(entry.name) && leads_below(entry.name) && !entry.is_dir && entry.content is Ok
            ==> step == ZipStepView::Write(entry.name, entry.content->Ok_0),
        portable(entry.name) ==> (step is PassOver <==> !leads_below(entry.name)),
{
}

/// Where an entry belongs; nowhere if it cannot be read.
pub open spec fn zip_place(entry: Result<ZipEntry, String>) -> Option<Seq<char>> {
    match entry {
        Ok(entry) => opt_text(entry.place),
        Err(_) => None,
    }
}

/// What to do for an entry of a zip archive.
pub fn extract_entry(entry: Result<ZipEntry, String>) -> (r: ZipStep)
    ensures
        r@ == zip_step(zip_place(entry), stored(entry)),
{
    match entry {
        Err(why) => ZipStep::Fail(Fault::caused("failed to read zip entry", why.as_str())),
        Ok(entry) => match entry.place {
            None => ZipStep::PassOver,
            Some(place) => {
                if entry.is_dir {
                    ZipStep::MakeDir(place)
                } else {
                    match entry.content {
                        Ok(bytes) => ZipStep::Write(place, bytes),
                        Err(why) => ZipStep::Break(place, why),
                    }
                }
            },
        },
    }
}

/// How to unpack the bytes of a zip archive: a step for each of its entries, in their order.
/// Where an entry belongs below the directory goes by the machine's rules for paths.
pub fn extract_archive(bytes: &[u8]) -> (r: Result<Vec<ZipStep>, Fault>)
    ensures
        match (r, zip_contents(bytes@)) {
            (Ok(steps), Ok(entries)) => steps@.len() == entries.len() && forall|i: int|
                0 <= i < entries.len() ==> due((#[trigger] steps@[i])@, entries[i]),
            (Err(fault), Err(why)) => fault@ == caused("failed to open release zip"@, why),
            _ => false,
        },
{
    let entries = match read_zip(bytes) {
        Ok(entries) => entries,
        Err(why) => {
            return Err(Fault::caused("failed to open release zip", why.as_str()));
        },
    };
    let mut steps: Vec<ZipStep> = Vec::new();
    for entry in it: entries
        invariant
            it.seq() == entries@,
            steps@.len() == it.index(),
            forall|i: int|
                0 <= i < steps@.len() ==> (#[trigger] steps@[i])@ == zip_step(
                    zip_place(entries@[i]),
                    stored(entries@[i]),
                ),
    {
        steps.push(extract_entry(entry));
    }
    proof {
        let known = zip_contents(bytes@)->Ok_0;
        assert forall|i: int| 0 <= i < known.len() implies due(
            (#[trigger] steps@[i])@,
            known[i],
        ) by {
            assert(well_placed(entries@[i]));
            assert(steps@[i]@ == zip_step(zip_place(entries@[i]), known[i]));
        }
    }
    Ok(steps)
}

// ---------------------------------------------------------------------------
// Where it is installed
// ---------------------------------------------------------------------------

/// Whether part `i` of a path is the build directory of a program and the next one a build
/// in it. A part that is no name, such as the root, is `None`.
pub open spec fn built_at(parts: Seq<Option<String>>, i: int) -> bool {
    0 <= i && i + 1 < parts.len() && opt_text(parts[i]) == Some("target"@) && (opt_text(parts[i + 1])
        == Some("debug"@) || opt_text(parts[i + 1]) == Some("release"@))
}

fn is_part(part: &Option<String>, name: &str) -> (r: bool)
    ensures
        r == (opt_text(*part) == Some(name@)),
{
    match part {
        Some(part) => same(part.as_str(), name),
        None => false,
    }
}

/// Whether a program was built where it stands, rather than installed. `parts` are the parts
/// of its path.
pub fn is_cargo_target_binary(parts: &Vec<Option<String>>) -> (r: bool)
    ensures
        r == exists|i: int| built_at(parts@, i),
{
    let mut previous_was_target = false;
    let mut i: usize = 0;
    while i < parts.len()
        invariant
            i <= parts@.len(),
            previous_was_target == (i > 0 && opt_text(parts@[i - 1]) == Some("target"@)),
            forall|j: int| j + 1 < i ==> !built_at(parts@, j),
        decreases parts@.len() - i,
    {
        if previous_was_target && (is_part(&parts[i], "debug") || is_part(&parts[i], "release")) {
            proof {
                assert(built_at(parts@, i - 1));
            }
            return true;
        }
        previous_was_target = is_part(&parts[i], "target");
        i = i + 1;
    }
    false
}

/// Where the program is installed.
#[derive(Clone, Copy, Debug, PartialEq, Eq, Structural)]
pub enum InstallPlace {
    /// In the directory that was set.
    Chosen,
    /// In `.local/bin` of the home directory.
    LocalBin,
    /// Where it runs.
    Current,
}

/// Where the program is installed: in the directory that `GBANDIT_INSTALL_DIR` names, else
/// where it runs, unless it was built there.
pub fn cli_install_path(dir_set: bool, built_here: bool) -> (r: InstallPlace)
    ensures
        r == if dir_set {
            InstallPlace::Chosen
        } else if built_here {
            InstallPlace::LocalBin
        } else {
            InstallPlace::Current
        },
{
    if dir_set {
        InstallPlace::Chosen
    } else if built_here {
        InstallPlace::LocalBin
    } else {
        InstallPlace::Current
    }
}

// ---------------------------------------------------------------------------
// Putting it in place
// ---------------------------------------------------------------------------

/// A step of putting a new program in the place of the one that is there.
#[derive(Clone, Copy, Debug, PartialEq, Eq, Structural)]
pub enum Swap {
    /// Create the directory that it is installed in.
    MakeDir,
    /// Remove what an earlier update left beside it.
    ClearStaged,
    /// Remove the program that an earlier update set aside.
    ClearBackup,
    /// Copy the new program beside the one that is there.
    Stage,
    /// Set the one that is there aside.
    SetAside,
    /// Move the new one into place.
    Install,
    /// Move the one that was set aside back.
    Restore,
    /// Remove the one that was set aside.
    DropBackup,
    Done,
    NoDir,
    NotStaged,
    NotSetAside,
    NotInstalled,
}

/// The step that follows. `ok` says whether the step succeeded, `current` and `backup`
/// whether there is a program in place, and one set aside, after it.
pub open spec fn next_swap(step: Swap, ok: bool, current: bool, backup: bool) -> Swap {
    match step {
        Swap::MakeDir => if ok {
            Swap::ClearStaged
        } else {
            Swap::NoDir
        },
        Swap::ClearStaged => Swap::ClearBackup,
        Swap::ClearBackup => Swap::Stage,
        Swap::Stage => if !ok {
            Swap::NotStaged
        } else if current {
            Swap::SetAside
        } else {
            Swap::Install
        },
        Swap::SetAside => if ok {
            Swap::Install
        } else {
            Swap::NotSetAside
        },
        Swap::Install => if ok {
            Swap::DropBackup
        } else if backup {
            Swap::Restore
        } else {
            Swap::NotInstalled
        },
        Swap::Restore => Swap::NotInstalled,
        Swap::DropBackup => Swap::Done,
        end => end,
    }
}

/// The step that putting a program in place begins with. `has_parent` says whether there is
/// a directory to install it in.
pub fn first_swap(has_parent: bool) -> (r: Swap)
    ensures
        r == if has_parent {
            Swap::MakeDir
        } else {
            Swap::ClearStaged
        },
{
    if has_parent {
        Swap::MakeDir
    } else {
        Swap::ClearStaged
    }
}

/// The step that follows.
pub fn replace_binary(step: Swap, ok: bool, current: bool, backup: bool) -> (r: Swap)
    ensures
        r == next_swap(step, ok, current, backup),
{
    match step {
        Swap::MakeDir => if ok {
            Swap::ClearStaged
        } else {
            Swap::NoDir
        },
        Swap::ClearStaged => Swap::ClearBackup,
        Swap::ClearBackup => Swap::Stage,
        Swap::Stage => if !ok {
            Swap::NotStaged
        } else if current {
            Swap::SetAside
        } else {
            Swap::Install
        },
        Swap::SetAside => if ok {
            Swap::Install
        } else {
            Swap::NotSetAside
        },
        Swap::Install => if ok {
            Swap::DropBackup
        } else if backup {
            Swap::Restore
        } else {
            Swap::NotInstalled
        },
        Swap::Restore => Swap::NotInstalled,
        Swap::DropBackup => Swap::Done,
        end => end,
    }
}

/// What is said of the step that putting a program in place ended with.
pub open spec fn swap_fault(
    step: Swap,
    parent: Seq<char>,
    staged: Seq<char>,
    backup: Seq<char>,
    place: Seq<char>,
) -> Option<Seq<char>> {
    match step {
        Swap::NoDir => Some("failed to create install directory "@ + parent),
        Swap::NotStaged => Some("failed to stage updated binary at "@ + staged),
        Swap::NotSetAside => Some("failed to move current binary to "@ + backup),
        Swap::NotInstalled => Some("failed to install updated binary at "@ + place),
        _ => None,
    }
}

/// What to say of the step that putting a program in place ended with. `parent`, `staged`,
/// `backup` and `place` are the paths that it works with.
pub fn swap_failure(step: Swap, parent: &str, staged: &str, backup: &str, place: &str) -> (r: Option<
    String,
>)
    ensures
        opt_text(r) == match step {
            Swap::NoDir => Some("failed to create install directory "@ + parent@),
            Swap::NotStaged => Some("failed to stage updated binary at "@ + staged@),
            Swap::NotSetAside => Some("failed to move current binary to "@ + backup@),
            Swap::NotInstalled => Some("failed to install updated binary at "@ + place@),
            _ => None,
        },
        opt_text(r) == swap_fault(step, parent@, staged@, backup@, place@),
{
    match step {
        Swap::NoDir => Some("failed to create install directory ".to_string().concat(parent)),
        Swap::NotStaged => Some("failed to stage updated binary at ".to_string().concat(staged)),
        Swap::NotSetAside => Some("failed to move current binary to ".to_string().concat(backup)),
        Swap::NotInstalled => Some("failed to install updated binary at ".to_string().concat(place)),
        _ => None,
    }
}

/// The programs on disk: in place, beside it, and set aside.
pub struct Disk {
    pub current: Option<int>,
    pub staged: Option<int>,
    pub backup: Option<int>,
}

/// What a step that succeeded leaves on disk; `fresh` is the new program.
pub open spec fn effect(disk: Disk, step: Swap, fresh: int) -> Disk {
    match step {
        Swap::ClearStaged => Disk { staged: None, ..disk },
        Swap::ClearBackup => Disk { backup: None, ..disk },
        Swap::Stage => Disk { staged: Some(fresh), ..disk },
        Swap::SetAside => Disk { current: None, backup: disk.current, ..disk },
        Swap::Install => Disk { current: disk.staged, staged: None, ..disk },
        Swap::Restore => Disk { current: disk.backup, backup: None, ..disk },
        Swap::DropBackup => Disk { backup: None, ..disk },
        _ => disk,
    }
}

/// Where an update stands, and what is on disk.
pub struct Update {
    pub step: Swap,
    pub disk: Disk,
}

/// An update after a step that succeeded or failed. A step that fails leaves the programs as
/// they are, but for a copy that it may have begun.
pub open spec fn moved_on(u: Update, ok: bool, fresh: int, begun: Option<int>) -> Update {
    let disk = if ok {
        effect(u.disk, u.step, fresh)
    } else if u.step is Stage {
        Disk { staged: begun, ..u.disk }
    } else {
        u.disk
    };
    Update { step: next_swap(u.step, ok, disk.current is Some, disk.backup is Some), disk }
}

/// An update after steps that came out as `outcomes` say.
pub open spec fn update_after(u: Update, outcomes: Seq<bool>, fresh: int, begun: Option<int>) -> Update
    decreases outcomes.len(),
{
    if outcomes.len() == 0 {
        u
    } else {
        update_after(moved_on(u, outcomes[0], fresh, begun), outcomes.skip(1), fresh, begun)
    }
}

/// Whether the program that ran before is in place or set aside, as the step has it, and
/// the new one is where the step needs it.
spec fn kept_safe(u: Update, was: int, fresh: int) -> bool {
    match u.step {
        Swap::MakeDir => u.disk.current == Some(was),
        Swap::ClearStaged => u.disk.current == Some(was),
        Swap::ClearBackup => u.disk.current == Some(was),
        Swap::Stage => u.disk.current == Some(was),
        Swap::SetAside => u.disk.current == Some(was) && u.disk.staged == Some(fresh),
        Swap::Install => u.disk.backup == Some(was) && u.disk.staged == Some(fresh),
        Swap::Restore => u.disk.backup == Some(was),
        Swap::DropBackup => u.disk.current == Some(fresh),
        Swap::Done => u.disk.current == Some(fresh),
        Swap::NoDir => u.disk.current == Some(was),
        Swap::NotStaged => u.disk.current == Some(was),
        Swap::NotSetAside => u.disk.current == Some(was),
        Swap::NotInstalled => u.disk.current == Some(was) || u.disk.backup == Some(was),
    }
}

proof fn lemma_kept_safe(u: Update, outcomes: Seq<bool>, was: int, fresh: int, begun: Option<int>)
    requires
        kept_safe(u, was, fresh),
    ensures
        kept_safe(update_after(u, outcomes, fresh, begun), was, fresh),
    decreases outcomes.len(),
{
    if outcomes.len() > 0 {
        lemma_kept_safe(
            moved_on(u, outcomes[0], fresh, begun),
            outcomes.skip(1),
            was,
            fresh,
            begun,
        );
    }
}

/// However its steps come out, an update does not lose the program that was there: at every
/// point the old program is in place or set aside, or the new one is in place. An update
/// that is done leaves the new one in place; one that failed leaves the old one in place, or
/// at worst set aside.
pub proof fn law_no_program_is_lost(
    start: Update,
    outcomes: Seq<bool>,
    was: int,
    fresh: int,
    begun: Option<int>,
)
    requires
        start.step is MakeDir || start.step is ClearStaged,
        start.disk.current == Some(was),
    ensures
        ({
            let u = update_after(start, outcomes, fresh, begun);
            &&& u.disk.current == Some(was) || u.disk.backup == Some(was) || u.disk.current == Some(
                fresh,
            )
            &&& u.step is Done ==> u.disk.current == Some(fresh)
            &&& u.step is NoDir || u.step is NotStaged || u.step is NotSetAside ==> u.disk.current
                == Some(was)
            &&& u.step is NotInstalled ==> u.disk.current == Some(was) || u.disk.backup == Some(was)
        }),
{
    lemma_kept_safe(start, outcomes, was, fresh, begun);
}

/// Where every step succeeds, an update ends with the new program in place and nothing left
/// beside it.
pub proof fn law_updates_end(disk: Disk, was: int, fresh: int)
    requires
        disk.current == Some(was),
    ensures
        update_after(
            Update { step: Swap::MakeDir, disk },
            seq![true, true, true, true, true, true, true],
            fresh,
            None,
        ) == (Update {
            step: Swap::Done,
            disk: Disk { current: Some(fresh), staged: None, backup: None },
        }),
{
    reveal_with_fuel(update_after, 8);
    let all = seq![true, true, true, true, true, true, true];
    assert(all.skip(1) =~= seq![true, true, true, true, true, true]);
    assert(all.skip(1).skip(1) =~= seq![true, true, true, true, true]);
    assert(all.skip(1).skip(1).skip(1) =~= seq![true, true, true, true]);
    assert(all.skip(1).skip(1).skip(1).skip(1) =~= seq![true, true, true]);
    assert(all.skip(1).skip(1).skip(1).skip(1).skip(1) =~= seq![true, true]);
    assert(all.skip(1).skip(1).skip(1).skip(1).skip(1).skip(1) =~= seq![true]);
    assert(all.skip(1).skip(1).skip(1).skip(1).skip(1).skip(1).skip(1) =~= Seq::<bool>::empty());
}

// ---------------------------------------------------------------------------
// Laws of releases
// ---------------------------------------------------------------------------

/// A target begins with the very architecture of the machine, followed by a hyphen and by
/// what the operating system alone decides: no two architectures share a target.
pub proof fn law_targets_name_their_architecture(os: Seq<char>, arch: Seq<char>, other: Seq<char>)
    requires
        target(os, arch) is Ok,
        target(os, other) is Ok,
    ensures
        starts_with(target(os, arch)->Ok_0, arch + "-"@),
        target(os, arch)->Ok_0.skip(arch.len() as int) == target(os, other)->Ok_0.skip(
            other.len() as int,
        ),
        target(os, arch) == target(os, other) ==> arch == other,
{
    let name = target(os, arch)->Ok_0;
    let second = target(os, other)->Ok_0;
    let part = os_part(os)->0;
    law_texts_contain_their_parts(Seq::empty(), arch + "-"@, part);
    assert(name.skip(arch.len() as int) =~= "-"@ + part);
    assert(second.skip(other.len() as int) =~= "-"@ + part);
    assert(name.take(arch.len() as int) =~= arch);
    assert(second.take(other.len() as int) =~= other);
}

/// Behind the architecture a target names the operating system.
pub proof fn law_targets_name_their_system(os: Seq<char>, arch: Seq<char>)
    requires
        target(os, arch) is Ok,
    ensures
        os == "linux"@ ==> ends_with(target(os, arch)->Ok_0, "unknown-linux-musl"@),
        os == "macos"@ ==> ends_with(target(os, arch)->Ok_0, "apple-darwin"@),
        os == "windows"@ ==> ends_with(target(os, arch)->Ok_0, "pc-windows-msvc"@),
{
    reveal_strlit("linux");
    reveal_strlit("macos");
    reveal_strlit("windows");
    assert("linux"@[0] == 'l' && "macos"@[0] == 'm' && "windows"@[0] == 'w');
    law_texts_contain_their_parts(arch + "-"@, os_part(os)->0, Seq::empty());
}

/// No two operating systems share a target.
pub proof fn law_systems_have_targets_of_their_own(os: Seq<char>, other: Seq<char>, arch: Seq<char>)
    requires
        target(os, arch) is Ok,
        target(os, arch) == target(other, arch),
    ensures
        os == other,
{
    reveal_strlit("unknown-linux-musl");
    reveal_strlit("apple-darwin");
    reveal_strlit("pc-windows-msvc");
    assert("unknown-linux-musl"@.len() == 18);
    assert("apple-darwin"@.len() == 12);
    assert("pc-windows-msvc"@.len() == 15);
    assert(target(os, arch)->Ok_0.len() == arch.len() + "-"@.len() + os_part(os)->0.len());
    assert(target(other, arch)->Ok_0.len() == arch.len() + "-"@.len() + os_part(other)->0.len());
}

/// Releases are for three operating systems and two architectures, and for every pair of
/// them. What else there is, is named.
pub proof fn law_which_machines_have_releases(os: Seq<char>, arch: Seq<char>)
    ensures
        target(os, arch) is Ok <==> (os == "linux"@ || os == "macos"@ || os == "windows"@) && (arch
            == "x86_64"@ || arch == "aarch64"@),
        !(os == "linux"@ || os == "macos"@ || os == "windows"@) ==> target(os, arch) == Err::<
            Seq<char>,
            Seq<char>,
        >("unsupported OS for self-update: "@ + os),
        (os == "linux"@ || os == "macos"@ || os == "windows"@) && target(os, arch) is Err ==> target(
            os,
            arch,
        ) == Err::<Seq<char>, Seq<char>>("unsupported architecture for self-update: "@ + arch),
{
}

/// The file of a release is named after the target, and its ending after the system.
pub proof fn law_assets_name_their_target(target: Seq<char>, windows: bool)
    ensures
        starts_with(asset(target, windows), "gbandit-"@ + target + "."@),
        windows ==> ends_with(asset(target, windows), ".zip"@),
        !windows ==> ends_with(asset(target, windows), ".tar.gz"@),
{
    reveal_strlit(".");
    reveal_strlit("zip");
    reveal_strlit("tar.gz");
    reveal_strlit(".zip");
    reveal_strlit(".tar.gz");
    let end = if windows {
        "zip"@
    } else {
        "tar.gz"@
    };
    law_texts_contain_their_parts(Seq::empty(), "gbandit-"@ + target + "."@, end);
    assert("."@ + "zip"@ =~= ".zip"@);
    assert("."@ + "tar.gz"@ =~= ".tar.gz"@);
    law_texts_contain_their_parts("gbandit-"@ + target, "."@ + end, Seq::empty());
    assert("gbandit-"@ + target + ("."@ + end) =~= asset(target, windows));
}

proof fn lemma_ends(a: Seq<char>, b: Seq<char>, c: Seq<char>, d: Seq<char>)
    ensures
        ends_with(a + b + c + d, b + c + d),
        starts_with(a + b + c + d, a),
{
    assert(a + (b + c + d) =~= a + b + c + d);
    law_texts_contain_their_parts(a, b + c + d, Seq::empty());
    law_texts_contain_their_parts(Seq::empty(), a, b + c + d);
}

proof fn lemma_middle(a: Seq<char>, b: Seq<char>, c: Seq<char>, d: Seq<char>, e: Seq<char>)
    ensures
        contains(a + b + c + d + e, b + c),
{
    assert(a + (b + c) + (d + e) =~= a + b + c + d + e);
    law_texts_contain_their_parts(a, b + c, d + e);
}

proof fn lemma_download_words(tag: Seq<char>, name: Seq<char>, file: Seq<char>)
    ensures
        ({
            let url = "https://github.com/gbandit/cli/releases/download/"@ + tag + "/"@ + file;
            &&& ends_with(url, tag + "/"@ + file)
            &&& starts_with(url, "https://github.com/gbandit/cli/releases/download/"@)
            &&& contains("Downloading gbandit "@ + tag + " for "@ + name + "..."@, tag + " for "@)
        }),
{
    lemma_ends("https://github.com/gbandit/cli/releases/download/"@, tag, "/"@, file);
    lemma_middle("Downloading gbandit "@, tag, " for "@, name, "..."@);
}

/// Nothing is downloaded only where no release was asked for and the latest one runs. What
/// is downloaded is the file for this machine, of the very release that is to be installed;
/// which release runs makes no difference to it.
pub proof fn law_the_asked_release_is_downloaded(
    requested: Option<Seq<char>>,
    tag: Seq<char>,
    version: Seq<char>,
    other: Seq<char>,
    os: Seq<char>,
    arch: Seq<char>,
    windows: bool,
)
    ensures
        ({
            let outcome = install_outcome(requested, tag, version, os, arch, windows);
            &&& (outcome matches Ok(InstallView::UpToDate(_))) <==> requested is None && tag
                == version
            &&& requested is Some ==> outcome == install_outcome(
                requested,
                tag,
                other,
                os,
                arch,
                windows,
            )
            &&& outcome is Err ==> target(os, arch) == Err::<Seq<char>, Seq<char>>(outcome->Err_0)
            &&& outcome matches Ok(InstallView::Download { say, asset: file, url }) ==> {
                &&& target(os, arch) is Ok
                &&& file == asset(target(os, arch)->Ok_0, windows)
                &&& ends_with(url, tag + "/"@ + file)
                &&& starts_with(url, "https://github.com/gbandit/cli/releases/download/"@)
                &&& say matches NoticeView::Progress(text) && contains(text, tag + " for "@)
            }
        }),
{
    if target(os, arch) is Ok {
        lemma_download_words(tag, target(os, arch)->Ok_0, asset(target(os, arch)->Ok_0, windows));
    }
}

/// An entry that cannot be read ends the unpacking with the reason. Of the others, one that
/// belongs nowhere is passed over whatever it holds, a directory is made whatever it holds,
/// and a file is written with what it holds, or fails for the reason that it cannot be read.
pub proof fn law_each_entry_has_its_step(place: Seq<char>, entry: Stored, why: Seq<char>)
    ensures
        zip_step(Some(place), Err(why)) matches ZipStepView::Fail(f) && f.cause == Some(why),
        zip_step(None, Err(why)) == zip_step(Some(place), Err(why)),
        zip_step(None, Ok(entry)) is PassOver,
        entry.is_dir ==> zip_step(Some(place), Ok(entry)) == ZipStepView::MakeDir(place),
        !entry.is_dir && entry.content is Ok ==> zip_step(Some(place), Ok(entry))
            == ZipStepView::Write(place, entry.content->Ok_0),
        !entry.is_dir && entry.content is Err ==> zip_step(Some(place), Ok(entry))
            == ZipStepView::Break(place, entry.content->Err_0),
{
}

/// A program was built where it stands exactly where two neighbouring parts of its path are
/// `target` and one of the two kinds of build, anywhere in the path.
pub proof fn law_builds_stand_in_target(
    above: Seq<Option<String>>,
    target: String,
    kind: String,
    below: Seq<Option<String>>,
)
    requires
        target@ == "target"@,
    ensures
        ({
            let parts = above + seq![Some(target), Some(kind)] + below;
            built_at(parts, above.len() as int) <==> kind@ == "debug"@ || kind@ == "release"@
        }),
        forall|parts: Seq<Option<String>>, i: int| #[trigger]
            built_at(parts, i) ==> opt_text(parts[i]) == Some("target"@) && parts[i + 1] is Some,
{
    let parts = above + seq![Some(target), Some(kind)] + below;
    let n = above.len() as int;
    assert(parts[n] == Some(target));
    assert(parts[n + 1] == Some(kind));
}

/// A first installation needs nothing to set aside, and ends with the new program in place.
pub proof fn law_first_installations_end(disk: Disk, fresh: int)
    requires
        disk.current is None,
    ensures
        update_after(
            Update { step: Swap::MakeDir, disk },
            seq![true, true, true, true, true, true],
            fresh,
            None,
        ) == (Update {
            step: Swap::Done,
            disk: Disk { current: Some(fresh), staged: None, backup: None },
        }),
{
    reveal_with_fuel(update_after, 7);
    let all = seq![true, true, true, true, true, true];
    assert(all.skip(1) =~= seq![true, true, true, true, true]);
    assert(all.skip(1).skip(1) =~= seq![true, true, true, true]);
    assert(all.skip(1).skip(1).skip(1) =~= seq![true, true, true]);
    assert(all.skip(1).skip(1).skip(1).skip(1) =~= seq![true, true]);
    assert(all.skip(1).skip(1).skip(1).skip(1).skip(1) =~= seq![true]);
    assert(all.skip(1).skip(1).skip(1).skip(1).skip(1).skip(1) =~= Seq::<bool>::empty());
}

/// A step that fails ends the update before anything is lost: the program that was there
/// stays, or is moved back. What an earlier update left behind cannot stop one.
pub proof fn law_failed_steps_end_the_update(step: Swap, current: bool, backup: bool)
    ensures
        next_swap(Swap::MakeDir, false, current, backup) is NoDir,
        next_swap(Swap::Stage, false, current, backup) is NotStaged,
        next_swap(Swap::SetAside, false, current, backup) is NotSetAside,
        next_swap(Swap::Install, false, current, true) is Restore,
        next_swap(Swap::Install, false, current, false) is NotInstalled,
        next_swap(Swap::Restore, true, current, backup) is NotInstalled,
        next_swap(Swap::Restore, false, current, backup) is NotInstalled,
        step is ClearStaged || step is ClearBackup || step is DropBackup ==> next_swap(
            step,
            false,
            current,
            backup,
        ) == next_swap(step, true, current, backup),
        step is Done || step is NoDir || step is NotStaged || step is NotSetAside
            || step is NotInstalled ==> next_swap(step, false, current, backup) == step && next_swap(
            step,
            true,
            current,
            backup,
        ) == step,
{
}

/// A download fails exactly where it is not answered with two hundred and something; a release
/// that is missing is named with the file, any other failure with the address.
pub proof fn law_failed_downloads_say_what_was_missing(
    status: u16,
    tag: Seq<char>,
    file: Seq<char>,
    url: Seq<char>,
)
    requires
        is_status(status),
    ensures
        download_fault(status, tag, file, url) is None <==> status / 100 == 2,
        status == 404 ==> starts_with(
            download_fault(status, tag, file, url)->0,
            "release "@ + tag + " does not provide "@ + file,
        ),
        status / 100 != 2 && status != 404 ==> starts_with(
            download_fault(status, tag, file, url)->0,
            "failed to download "@ + url,
        ),
{
    law_texts_contain_their_parts(
        Seq::empty(),
        "release "@ + tag + " does not provide "@ + file,
        " (or the tag does not exist) — see available releases at https://github.com/gbandit/cli/releases"@,
    );
    lemma_front("failed to download "@ + url, ": "@, status_display(status));
}

proof fn lemma_front(a: Seq<char>, b: Seq<char>, c: Seq<char>)
    ensures
        starts_with(a + b + c, a),
{
    assert(a + (b + c) =~= a + b + c);
    law_texts_contain_their_parts(Seq::empty(), a, b + c);
}

/// A step that went wrong is told with the path that it worked on, and no other step is.
pub proof fn law_failed_steps_name_their_path(
    step: Swap,
    parent: Seq<char>,
    staged: Seq<char>,
    backup: Seq<char>,
    place: Seq<char>,
)
    ensures
        ({
            let fault = swap_fault(step, parent, staged, backup, place);
            &&& fault is Some <==> step is NoDir || step is NotStaged || step is NotSetAside
                || step is NotInstalled
            &&& step is NoDir ==> ends_with(fault->0, parent)
            &&& step is NotStaged ==> ends_with(fault->0, staged)
            &&& step is NotSetAside ==> ends_with(fault->0, backup)
            &&& step is NotInstalled ==> ends_with(fault->0, place)
        }),
{
    let none = Seq::<char>::empty();
    law_texts_contain_their_parts("failed to create install directory "@, parent, none);
    law_texts_contain_their_parts("failed to stage updated binary at "@, staged, none);
    law_texts_contain_their_parts("failed to move current binary to "@, backup, none);
    law_texts_contain_their_parts("failed to install updated binary at "@, place, none);
}

/// No step is passed over: what an earlier update left is cleared before the new program is
/// staged, nothing is set aside before that succeeded, nothing is installed where a program is
/// still in place, and what was set aside is dropped only once the new one is there.
pub proof fn law_no_step_is_passed_over(step: Swap, ok: bool, current: bool, backup: bool)
    ensures
        ({
            let next = next_swap(step, ok, current, backup);
            &&& next is ClearStaged ==> step is MakeDir && ok
            &&& next is ClearBackup ==> step is ClearStaged
            &&& next is Stage ==> step is ClearBackup
            &&& next is SetAside ==> step is Stage && ok && current
            &&& next is Install ==> ok && (step is SetAside || step is Stage && !current)
            &&& next is Restore ==> step is Install && !ok && backup
            &&& next is DropBackup ==> step is Install && ok
            &&& next is Done ==> step is DropBackup || step is Done
            &&& !(next is MakeDir)
        }),
{
}

} // verus!
