//! The content scanner: discovering descriptor files in the working copy.
//!
//! The recursive directory walk is `walkdir`'s, behind trusted wrappers.
//! What the walk yields depends on the disk, so nothing promises which
//! entries come back — but each entry's name and path are functions of the
//! entry alone and carry names (`entry_name_of`, `entry_path_of`), and over
//! them the scanner's own rule is a contract: every kept path belongs to a
//! directory entry whose file name is exactly the fixed descriptor file
//! name. Entries the walk cannot read are skipped — they contribute nothing
//! and never abort the scan — and a root that does not exist yields only
//! such error entries, hence an empty result.

use vstd::prelude::*;

verus! {

/// The fixed file name that marks a challenge descriptor.
pub open spec fn descriptor_file_name() -> Seq<char> {
    "metadata.json"@
}

/// Whether `name` is the descriptor file name.
pub fn is_descriptor_file_name(name: &String) -> (r: bool)
    ensures
        r == (name@ == descriptor_file_name()),
{
    let target: String = "metadata.json".to_owned();
    *name == target
}

// ---------------------------------------------------------------------------
// Trusted boundary: walkdir.
// ---------------------------------------------------------------------------

#[verifier::external_type_specification]
#[verifier::external_body]
pub struct ExWalkDir(walkdir::WalkDir);

#[verifier::external_type_specification]
#[verifier::external_body]
pub struct ExIntoIter(walkdir::IntoIter);

#[verifier::external_type_specification]
#[verifier::external_body]
pub struct ExDirEntry(walkdir::DirEntry);

#[verifier::external_type_specification]
#[verifier::external_body]
pub struct ExWalkError(walkdir::Error);

/// The file name of a directory entry — a function of the entry alone.
pub uninterp spec fn entry_name_of(entry: walkdir::DirEntry) -> Seq<char>;

/// The full path of a directory entry — a function of the entry alone.
pub uninterp spec fn entry_path_of(entry: walkdir::DirEntry) -> Seq<char>;

/// Relies on walkdir::WalkDir::new: a recursive walk rooted at the path.
#[verifier::external_body]
fn walk_dir(root: &String) -> walkdir::WalkDir {
    walkdir::WalkDir::new(root.as_str())
}

/// Relies on walkdir::WalkDir::into_iter (IntoIterator): the walk as an
/// iterator over its directory entries.
#[verifier::external_body]
fn walk_iter(walk: walkdir::WalkDir) -> walkdir::IntoIter {
    walk.into_iter()
}

/// Relies on walkdir::IntoIter::next (Iterator): the next directory entry,
/// an error for an entry that could not be read, or `None` at the end of
/// the walk; a missing root yields one error entry, not a panic.
#[verifier::external_body]
fn walk_next(iter: &mut walkdir::IntoIter) -> Option<Result<walkdir::DirEntry, walkdir::Error>> {
    iter.next()
}

/// Relies on walkdir::DirEntry::file_name: the final component of the
/// entry's path (the lossy conversion only changes the value's type).
#[verifier::external_body]
fn entry_file_name(entry: &walkdir::DirEntry) -> (r: String)
    ensures
        r@ == entry_name_of(*entry),
{
    entry.file_name().to_string_lossy().into_owned()
}

/// Relies on walkdir::DirEntry::path: the full path of the entry.
#[verifier::external_body]
fn entry_path(entry: &walkdir::DirEntry) -> (r: String)
    ensures
        r@ == entry_path_of(*entry),
{
    entry.path().to_string_lossy().into_owned()
}

// ---------------------------------------------------------------------------
// The scanner.
// ---------------------------------------------------------------------------

/// Walks the working copy under `root_path` and returns the paths of the
/// descriptor files it holds, in traversal order.
///
/// Which entries the walk yields depends on the disk, so no contract can
/// promise them; what the contract does promise is the scanner's rule:
/// every kept path is the path of a directory entry the walk yielded whose
/// file name is exactly the descriptor file name. Error entries — an
/// unreadable directory, a broken link, a missing root — contribute nothing
/// and never abort the scan, so a `root_path` that does not exist yields an
/// empty result. A fresh call re-walks from scratch.
pub fn scan(root_path: &String) -> (paths: Vec<String>)
    ensures
        exists|entries: Seq<walkdir::DirEntry>|
            #![trigger entries.len()]
            entries.len() == paths@.len() && (forall|k: int|
                0 <= k < entries.len() ==> entry_name_of(#[trigger] entries[k])
                    == descriptor_file_name() && paths@[k]@ == entry_path_of(entries[k])),
{
    let mut iter = walk_iter(walk_dir(root_path));
    let mut paths: Vec<String> = Vec::new();
    let ghost mut kept: Seq<walkdir::DirEntry> = Seq::empty();
    let mut remaining: usize = usize::MAX;
    let mut done = false;
    while !done && remaining > 0
        invariant
            kept.len() == paths@.len(),
            forall|k: int|
                0 <= k < kept.len() ==> entry_name_of(#[trigger] kept[k])
                    == descriptor_file_name() && paths@[k]@ == entry_path_of(kept[k]),
        decreases remaining,
    {
        match walk_next(&mut iter) {
            None => {
                done = true;
            },
            Some(Ok(entry)) => {
                let name = entry_file_name(&entry);
                if is_descriptor_file_name(&name) {
                    let ghost paths0 = paths@;
                    let ghost kept0 = kept;
                    paths.push(entry_path(&entry));
                    proof {
                        kept = kept.push(entry);
                        assert forall|k: int|
                            0 <= k < kept.len() implies entry_name_of(#[trigger] kept[k])
                            == descriptor_file_name() && paths@[k]@ == entry_path_of(kept[k]) by {
                            if k < paths0.len() {
                                assert(paths@[k] == paths0[k]);
                                assert(kept[k] == kept0[k]);
                            } else {
                                assert(kept[k] == entry);
                            }
                        }
                    }
                }
            },
            Some(Err(_)) => {
                // An unreadable directory entry is skipped; the walk goes on.
            },
        }
        remaining = remaining - 1;
    }
    proof {
        assert(kept.len() == paths@.len());
    }
    paths
}

} // verus!
