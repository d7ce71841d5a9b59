//! What goes into the archive of a project, and in which order.

use vstd::prelude::*;
use vstd::string::*;

use crate::text::{opt_str, same};

verus! {

/// What the walk through a project came upon.
#[derive(Clone, Copy, Debug, PartialEq, Eq, Structural)]
pub enum EntryKind {
    Dir,
    File,
    /// A link, a device, or something that has no kind.
    Other,
}

/// An entry of the walk through a project.
#[derive(Debug)]
pub struct WalkEntry {
    /// Where it stands below the project's directory; empty for the directory itself.
    pub path: String,
    pub kind: EntryKind,
}

/// A member of the archive.
#[derive(Clone, Copy, Debug, PartialEq, Eq, Structural)]
pub enum Member {
    /// The project's configuration.
    Config,
    /// The directory that entry number so-and-so names.
    Dir(usize),
    /// The file that entry number so-and-so names.
    File(usize),
}

/// The name of the project's configuration.
pub open spec fn config_name() -> Seq<char> {
    "gbandit.jsonc"@
}

/// Whether the walk goes on into an entry of this name.
pub open spec fn goes_into(name: Option<Seq<char>>) -> bool {
    name != Some(".git"@)
}

/// Whether the walk goes on into an entry of this name; a name that is no text is none to
/// be passed over. What a project ignores is left to its ignore files, which cannot name
/// `.git`.
pub fn is_packed(name: Option<&str>) -> (r: bool)
    ensures
        r == (opt_str(name) != Some(".git"@)),
        r == goes_into(opt_str(name)),
{
    match name {
        Some(name) => !same(name, ".git"),
        None => true,
    }
}

/// Whether an entry is left out of the walk's members: the directory itself, and the
/// configuration, which comes first.
pub open spec fn is_left_out(path: Seq<char>) -> bool {
    path.len() == 0 || path == config_name()
}

/// What the first `n` entries add to the archive, in order.
pub open spec fn walked(entries: Seq<WalkEntry>, n: int) -> Seq<Member>
    decreases n,
{
    if n <= 0 {
        Seq::empty()
    } else {
        let before = walked(entries, n - 1);
        let entry = entries[n - 1];
        if is_left_out(entry.path@) {
            before
        } else {
            match entry.kind {
                EntryKind::Dir => before.push(Member::Dir((n - 1) as usize)),
                EntryKind::File => before.push(Member::File((n - 1) as usize)),
                EntryKind::Other => before,
            }
        }
    }
}

/// The members of the archive: the configuration first, where there is one, so that who
/// looks for it need not unpack the rest; then the directories and files of the walk.
pub open spec fn members(has_config: bool, entries: Seq<WalkEntry>) -> Seq<Member> {
    let first = if has_config {
        seq![Member::Config]
    } else {
        Seq::empty()
    };
    first + walked(entries, entries.len() as int)
}

/// The members of the archive. `has_config` says whether the configuration is a file.
pub fn build_project_archive_in(has_config: bool, entries: &Vec<WalkEntry>) -> (r: Vec<Member>)
    ensures
        r@ == members(has_config, entries@),
{
    let mut out: Vec<Member> = Vec::new();
    if has_config {
        out.push(Member::Config);
    }
    let ghost first = out@;
    let mut i: usize = 0;
    proof {
        assert(first =~= if has_config {
            seq![Member::Config]
        } else {
            Seq::empty()
        });
        assert(first + walked(entries@, 0) =~= first);
    }
    while i < entries.len()
        invariant
            i <= entries@.len(),
            out@ == first + walked(entries@, i as int),
        decreases entries@.len() - i,
    {
        let ghost before = walked(entries@, i as int);
        let path = entries[i].path.as_str();
        if !path.is_empty() && !same(path, "gbandit.jsonc") {
            match entries[i].kind {
                EntryKind::Dir => {
                    out.push(Member::Dir(i));
                    proof {
                        assert(first + before.push(Member::Dir(i)) =~= (first + before).push(
                            Member::Dir(i),
                        ));
                    }
                },
                EntryKind::File => {
                    out.push(Member::File(i));
                    proof {
                        assert(first + before.push(Member::File(i)) =~= (first + before).push(
                            Member::File(i),
                        ));
                    }
                },
                EntryKind::Other => {},
            }
        }
        i = i + 1;
    }
    out
}

/// What to say where the project's directory is not there.
pub fn no_project_directory(root: &str) -> (r: String)
    ensures
        r@ == "project directory not found: "@ + root@,
{
    "project directory not found: ".to_string().concat(root)
}

/// The path that a member has in the archive.
pub open spec fn member_path(entries: Seq<WalkEntry>, m: Member) -> Seq<char> {
    match m {
        Member::Config => config_name(),
        Member::Dir(i) => entries[i as int].path@,
        Member::File(i) => entries[i as int].path@,
    }
}

/// The entry that a member comes from.
spec fn source(m: Member) -> int {
    match m {
        Member::Config => -1,
        Member::Dir(i) => i as int,
        Member::File(i) => i as int,
    }
}

proof fn lemma_walked(entries: Seq<WalkEntry>, n: int, k: int)
    requires
        0 <= n <= entries.len(),
        entries.len() <= usize::MAX,
        0 <= k < walked(entries, n).len(),
    ensures
        ({
            let m = walked(entries, n)[k];
            &&& !(m is Config)
            &&& 0 <= source(m) < n
            &&& !is_left_out(entries[source(m)].path@)
            &&& m is Dir ==> entries[source(m)].kind is Dir
            &&& m is File ==> entries[source(m)].kind is File
            &&& forall|j: int| 0 <= j < k ==> source(#[trigger] walked(entries, n)[j]) < source(m)
        }),
    decreases n,
{
    let before = walked(entries, n - 1);
    let all = walked(entries, n);
    if k < before.len() {
        lemma_walked(entries, n - 1, k);
        assert(all[k] == before[k]);
        assert forall|j: int| 0 <= j < k implies source(#[trigger] all[j]) < source(all[k]) by {
            assert(all[j] == before[j]);
        }
    } else {
        assert forall|j: int| 0 <= j < k implies source(#[trigger] all[j]) < source(all[k]) by {
            lemma_walked(entries, n - 1, j);
            assert(all[j] == before[j]);
        }
    }
}

/// Where there is a configuration it comes first in the archive, and nothing else in the
/// archive has its name.
pub proof fn law_config_comes_first(entries: Seq<WalkEntry>, k: int)
    requires
        entries.len() <= usize::MAX,
        0 < k < members(true, entries).len(),
    ensures
        members(true, entries)[0] == Member::Config,
        member_path(entries, members(true, entries)[k]) != config_name(),
{
    lemma_walked(entries, entries.len() as int, k - 1);
    assert(members(true, entries)[k] == walked(entries, entries.len() as int)[k - 1]);
}

/// No entry of the walk goes into the archive twice, and they keep their order.
pub proof fn law_walk_order_is_kept(entries: Seq<WalkEntry>, j: int, k: int)
    requires
        entries.len() <= usize::MAX,
        0 <= j < k < walked(entries, entries.len() as int).len(),
    ensures
        ({
            let list = walked(entries, entries.len() as int);
            match (list[j], list[k]) {
                (Member::Dir(a), Member::Dir(b)) => a < b,
                (Member::Dir(a), Member::File(b)) => a < b,
                (Member::File(a), Member::Dir(b)) => a < b,
                (Member::File(a), Member::File(b)) => a < b,
                _ => false,
            }
        }),
{
    lemma_walked(entries, entries.len() as int, j);
    lemma_walked(entries, entries.len() as int, k);
}

proof fn lemma_entry_is_walked(entries: Seq<WalkEntry>, n: int, i: int)
    requires
        0 <= i < n <= entries.len(),
        entries.len() <= usize::MAX,
        !is_left_out(entries[i].path@),
        entries[i].kind is File || entries[i].kind is Dir,
    ensures
        walked(entries, n).contains(
            if entries[i].kind is Dir {
                Member::Dir(i as usize)
            } else {
                Member::File(i as usize)
            },
        ),
    decreases n,
{
    let m = if entries[i].kind is Dir {
        Member::Dir(i as usize)
    } else {
        Member::File(i as usize)
    };
    let all = walked(entries, n);
    let before = walked(entries, n - 1);
    if i == n - 1 {
        assert(all[before.len() as int] == m);
    } else {
        lemma_entry_is_walked(entries, n - 1, i);
        let k = choose|k: int| 0 <= k < before.len() && before[k] == m;
        assert(all[k] == m);
    }
}

/// Every file and every directory that the walk came upon is in the archive, but for the
/// project's directory itself and the configuration.
pub proof fn law_nothing_is_missing(has_config: bool, entries: Seq<WalkEntry>, i: int)
    requires
        entries.len() <= usize::MAX,
        0 <= i < entries.len(),
        entries[i].path@.len() > 0,
        entries[i].path@ != config_name(),
    ensures
        entries[i].kind is File ==> members(has_config, entries).contains(Member::File(i as usize)),
        entries[i].kind is Dir ==> members(has_config, entries).contains(Member::Dir(i as usize)),
{
    if entries[i].kind is File || entries[i].kind is Dir {
        lemma_entry_is_walked(entries, entries.len() as int, i);
        let list = walked(entries, entries.len() as int);
        let m = if entries[i].kind is Dir {
            Member::Dir(i as usize)
        } else {
            Member::File(i as usize)
        };
        let k = choose|k: int| 0 <= k < list.len() && list[k] == m;
        let all = members(has_config, entries);
        let at = if has_config {
            k + 1
        } else {
            k
        };
        assert(all[at] == m);
    }
}

/// Of all names, only `.git` is passed over, and what has no name is not.
pub proof fn law_only_git_is_passed_over(name: Seq<char>)
    ensures
        goes_into(None),
        goes_into(Some(name)) <==> name != ".git"@,
{
}

/// Nothing is in the archive but the configuration and what the walk came upon, each as what
/// it is: a file as a file, a directory as a directory, and nothing else.
pub proof fn law_nothing_is_added(has_config: bool, entries: Seq<WalkEntry>, k: int)
    requires
        entries.len() <= usize::MAX,
        0 <= k < members(has_config, entries).len(),
    ensures
        match members(has_config, entries)[k] {
            Member::Config => has_config && k == 0,
            Member::Dir(i) => i < entries.len() && entries[i as int].kind is Dir
                && entries[i as int].path@.len() > 0 && entries[i as int].path@ != "gbandit.jsonc"@,
            Member::File(i) => i < entries.len() && entries[i as int].kind is File
                && entries[i as int].path@.len() > 0 && entries[i as int].path@ != "gbandit.jsonc"@,
        },
        has_config ==> members(has_config, entries)[0] is Config,
{
    let list = walked(entries, entries.len() as int);
    let at = if has_config {
        k - 1
    } else {
        k
    };
    if at >= 0 {
        assert(members(has_config, entries)[k] == list[at]);
        lemma_walked(entries, entries.len() as int, at);
    }
}

} // verus!
