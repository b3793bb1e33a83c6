//! Disk and tree inspection: recursive file enumeration over a directory
//! tree, disk-space lookup by mount point, human-readable byte formatting,
//! and path-to-relative rendering.
//!
//! The enumeration works on an in-memory picture of the directory tree; the
//! caller walks the real filesystem and records each entry, marking a
//! directory it could not read as unreadable.

use vstd::prelude::*;
use vstd::string::StringExecFns;
use vstd::string::StrSliceExecFns;
use crate::errors::SymlinkerError;
use crate::json::p_lit;
use crate::text::{chars_of, dec_chars, push_char, push_decimal, str_eq};

verus! {

/// The recursion ceiling of the tree enumeration.
pub const MAX_SCAN_DEPTH: u32 = 128;

/// One entry of a directory tree, as the caller observed it.
pub enum FsEntry {
    /// A non-directory entry.
    File { path: String },
    /// A directory; `readable` records whether its entries could be listed.
    Dir { path: String, readable: bool, entries: Vec<FsEntry> },
}

/// Why a tree enumeration failed.
pub ghost enum ScanError {
    /// The recursion ceiling was reached.
    DepthExceeded,
    /// The root of the enumeration is not a directory.
    NotADirectory,
    /// A directory could not be read; carries its path.
    Unreadable { path: Seq<char> },
}

/// The relation between an enumeration error and the reported failure value.
pub open spec fn scan_err_matches(se: ScanError, e: SymlinkerError) -> bool {
    match se {
        ScanError::DepthExceeded => e == SymlinkerError::DepthExceeded,
        ScanError::NotADirectory => e == SymlinkerError::InvalidInput,
        ScanError::Unreadable { path } => e matches SymlinkerError::Traversal { path: p } && p@
            == path,
    }
}

/// What enumerating a tree node at a given depth yields: every file path in
/// order, or the first failure.
pub open spec fn spec_scan(e: FsEntry, depth: nat) -> Result<Seq<Seq<char>>, ScanError>
    decreases e,
{
    if depth >= MAX_SCAN_DEPTH {
        Err(ScanError::DepthExceeded)
    } else {
        match e {
            FsEntry::File { .. } => Err(ScanError::NotADirectory),
            FsEntry::Dir { path, readable, entries } => {
                if !readable {
                    Err(ScanError::Unreadable { path: path@ })
                } else {
                    spec_scan_entries(entries@, depth)
                }
            },
        }
    }
}

/// Folds the enumeration over the entries of one directory, left to right.
pub open spec fn spec_scan_entries(es: Seq<FsEntry>, depth: nat) -> Result<
    Seq<Seq<char>>,
    ScanError,
>
    decreases es,
{
    if es.len() == 0 {
        Ok(Seq::empty())
    } else {
        let head = match es[0] {
            FsEntry::File { path } => Ok(seq![path@]),
            FsEntry::Dir { .. } => spec_scan(es[0], depth + 1),
        };
        match head {
            Err(err) => Err(err),
            Ok(fs1) => match spec_scan_entries(es.drop_first(), depth) {
                Err(err) => Err(err),
                Ok(fs2) => Ok(fs1 + fs2),
            },
        }
    }
}

/// The character sequences of a sequence of strings.
pub open spec fn strings_view(ss: Seq<String>) -> Seq<Seq<char>> {
    ss.map_values(|s: String| s@)
}

/// Recursively lists every non-directory entry under a directory tree, in
/// order.  Fails with `DepthExceeded` at the recursion ceiling, with
/// `InvalidInput` when the root is not a directory, and with `Traversal`,
/// naming the directory, when one could not be read.
#[verifier::loop_isolation(false)]
pub fn get_files_in_dir(e: &FsEntry, depth: u32) -> (r: Result<Vec<String>, SymlinkerError>)
    ensures
        match r {
            Ok(files) => spec_scan(*e, depth as nat) == Ok::<Seq<Seq<char>>, ScanError>(
                strings_view(files@),
            ),
            Err(err) => spec_scan(*e, depth as nat) matches Err(se) && scan_err_matches(se, err),
        },
    decreases MAX_SCAN_DEPTH - depth,
{
    if depth >= MAX_SCAN_DEPTH {
        return Err(SymlinkerError::DepthExceeded);
    }
    match e {
        FsEntry::File { .. } => Err(SymlinkerError::InvalidInput),
        FsEntry::Dir { path, readable, entries } => {
            if !*readable {
                return Err(SymlinkerError::Traversal { path: path.clone() });
            }
            let mut files: Vec<String> = Vec::new();
            let mut i: usize = 0;
            proof {
                assert(entries@.skip(0) =~= entries@);
                match spec_scan_entries(entries@, depth as nat) {
                    Ok(fs) => {
                        assert(strings_view(files@) + fs =~= fs);
                    },
                    Err(_) => {},
                }
            }
            while i < entries.len()
                invariant
                    i <= entries@.len(),
                    depth < MAX_SCAN_DEPTH,
                    (match spec_scan_entries(entries@.skip(i as int), depth as nat) {
                        Ok(fs) => spec_scan_entries(entries@, depth as nat) == Ok::<
                            Seq<Seq<char>>,
                            ScanError,
                        >(strings_view(files@) + fs),
                        Err(err) => spec_scan_entries(entries@, depth as nat) == Err::<
                            Seq<Seq<char>>,
                            ScanError,
                        >(err),
                    }),
                decreases entries@.len() - i,
            {
                proof {
                    assert(entries@.skip(i as int)[0] == entries@[i as int]);
                    assert(entries@.skip(i as int).drop_first() =~= entries@.skip(i + 1));
                }
                let ghost files_before = files@;
                match &entries[i] {
                    FsEntry::File { path: fpath } => {
                        files.push(fpath.clone());
                        proof {
                            assert(strings_view(files@) =~= strings_view(files_before) + seq![
                                fpath@,
                            ]);
                            match spec_scan_entries(entries@.skip(i + 1), depth as nat) {
                                Ok(fs2) => {
                                    assert(strings_view(files_before) + (seq![fpath@] + fs2)
                                        =~= strings_view(files@) + fs2);
                                },
                                Err(_) => {},
                            }
                        }
                    },
                    FsEntry::Dir { .. } => {
                        proof {
                            assert(entries@[i as int] is Dir);
                        }
                        match get_files_in_dir(&entries[i], depth + 1) {
                            Ok(mut sub) => {
                                let ghost sub_view = sub@;
                                files.append(&mut sub);
                                proof {
                                    assert(strings_view(files@) =~= strings_view(files_before)
                                        + strings_view(sub_view));
                                    match spec_scan_entries(entries@.skip(i + 1), depth as nat) {
                                        Ok(fs2) => {
                                            assert(strings_view(files_before) + (strings_view(
                                                sub_view,
                                            ) + fs2) =~= strings_view(files@) + fs2);
                                        },
                                        Err(_) => {},
                                    }
                                }
                            },
                            Err(err) => {
                                return Err(err);
                            },
                        }
                    },
                }
                i = i + 1;
            }
            proof {
                assert(entries@.skip(entries@.len() as int) =~= Seq::<FsEntry>::empty());
                assert(strings_view(files@) + Seq::<Seq<char>>::empty() =~= strings_view(files@));
            }
            Ok(files)
        },
    }
}

/// The count of non-directory entries directly inside a directory.
pub open spec fn direct_file_count(es: Seq<FsEntry>) -> nat
    decreases es,
{
    if es.len() == 0 {
        0
    } else {
        (match es[0] {
            FsEntry::File { .. } => 1 as nat,
            FsEntry::Dir { .. } => 0 as nat,
        }) + direct_file_count(es.drop_first())
    }
}

/// The total count of files enumerated under the subdirectories.
pub open spec fn subdir_file_sum(es: Seq<FsEntry>, depth: nat) -> nat
    decreases es,
{
    if es.len() == 0 {
        0
    } else {
        (match es[0] {
            FsEntry::File { .. } => 0 as nat,
            FsEntry::Dir { .. } => match spec_scan(es[0], depth + 1) {
                Ok(fs) => fs.len(),
                Err(_) => 0 as nat,
            },
        }) + subdir_file_sum(es.drop_first(), depth)
    }
}

/// The count law of the enumeration: on success it returns exactly the
/// directory's own files plus the files enumerated under its
/// subdirectories.
pub proof fn lemma_scan_entries_count(es: Seq<FsEntry>, depth: nat)
    ensures
        (match spec_scan_entries(es, depth) {
            Ok(fs) => fs.len() == direct_file_count(es) + subdir_file_sum(es, depth),
            Err(_) => true,
        }),
    decreases es,
{
    if es.len() > 0 {
        lemma_scan_entries_count(es.drop_first(), depth);
    }
}

/// The count law at a directory root: enumerating a directory yields exactly
/// its own file count plus the files enumerated under its subdirectories.
pub proof fn lemma_scan_count(e: FsEntry, depth: nat)
    ensures
        (match e {
            FsEntry::Dir { entries, .. } => match spec_scan(e, depth) {
                Ok(fs) => fs.len() == direct_file_count(entries@) + subdir_file_sum(
                    entries@,
                    depth,
                ),
                Err(_) => true,
            },
            FsEntry::File { .. } => true,
        }),
{
    match e {
        FsEntry::Dir { entries, .. } => {
            lemma_scan_entries_count(entries@, depth);
        },
        FsEntry::File { .. } => {},
    }
}

// ---------------------------------------------------------------------------
// Byte formatting
// ---------------------------------------------------------------------------

/// The rendering of a byte count in base-1000 units: the smallest unit that
/// keeps the scaled value under 1000, and the largest unit beyond the table.
/// The scaled value is truncated, not rounded.
pub open spec fn spec_human_readable(n: nat) -> Seq<char> {
    if n < 1000 {
        dec_chars(n) + "b"@
    } else if n / 1000 < 1000 {
        dec_chars(n / 1000) + "kb"@
    } else if n / 1000000 < 1000 {
        dec_chars(n / 1000000) + "mb"@
    } else if n / 1000000000 < 1000 {
        dec_chars(n / 1000000000) + "gb"@
    } else {
        dec_chars(n / 1000000000000) + "tb"@
    }
}

/// Formats a byte count with base-1000 units.
pub fn bytes_to_human_readable(size: u64) -> (r: String)
    ensures
        r@ == spec_human_readable(size as nat),
{
    let mut out = String::new();
    if size < 1000 {
        push_decimal(&mut out, size);
        out.append("b");
    } else if size / 1000 < 1000 {
        push_decimal(&mut out, size / 1000);
        out.append("kb");
    } else if size / 1000000 < 1000 {
        push_decimal(&mut out, size / 1000000);
        out.append("mb");
    } else if size / 1000000000 < 1000 {
        push_decimal(&mut out, size / 1000000000);
        out.append("gb");
    } else {
        push_decimal(&mut out, size / 1000000000000);
        out.append("tb");
    }
    out
}

// ---------------------------------------------------------------------------
// Path rendering
// ---------------------------------------------------------------------------

/// Repeatedly removes a non-empty leading occurrence of `p` from `s`.
pub open spec fn strip_prefix_rec(s: Seq<char>, p: Seq<char>) -> Seq<char>
    decreases s.len(),
{
    if p.len() > 0 && p.len() <= s.len() && s.take(p.len() as int) == p {
        strip_prefix_rec(s.skip(p.len() as int), p)
    } else {
        s
    }
}

/// Removes every leading backslash.
pub open spec fn strip_backslashes(s: Seq<char>) -> Seq<char>
    decreases s.len(),
{
    if s.len() > 0 && s[0] == '\\' {
        strip_backslashes(s.drop_first())
    } else {
        s
    }
}

/// Turns every backslash into a forward slash.
pub open spec fn slashify(s: Seq<char>) -> Seq<char> {
    s.map_values(|c: char| if c == '\\' { '/' } else { c })
}

/// The display form of a path relative to a base: the base prefix stripped,
/// leading backslashes trimmed, separators normalized to forward slashes,
/// and `./` prefixed.  Purely a rendering rule; nothing is canonicalized.
pub open spec fn spec_path_to_relative(path: Seq<char>, base: Seq<char>) -> Seq<char> {
    "./"@ + slashify(strip_backslashes(strip_prefix_rec(path, base)))
}

/// Renders a path relative to a base directory for display.
pub fn path_to_relative(path: &str, pwd: &str) -> (r: String)
    ensures
        r@ == spec_path_to_relative(path@, pwd@),
{
    let cs = chars_of(path);
    let n = cs.len();
    let plen = pwd.unicode_len();
    let mut pos: usize = 0;
    proof {
        assert(cs@.skip(0) =~= cs@);
    }
    if plen > 0 {
        loop
            invariant
                pos <= cs@.len(),
                cs@ == path@,
                plen == pwd@.len(),
                plen > 0,
                strip_prefix_rec(path@, pwd@) == strip_prefix_rec(cs@.skip(pos as int), pwd@),
            ensures
                pos <= cs@.len(),
                strip_prefix_rec(path@, pwd@) == cs@.skip(pos as int),
            decreases cs@.len() - pos,
        {
            match p_lit(&cs, pos, pwd) {
                Some(p2) => {
                    proof {
                        crate::json::lemma_skip_skip(cs@, pos as int, (p2 - pos) as int);
                    }
                    pos = p2;
                },
                None => {
                    break ;
                },
            }
        }
    }
    proof {
        if plen == 0 {
            assert(cs@.skip(0) =~= cs@);
            assert(strip_prefix_rec(path@, pwd@) == cs@.skip(pos as int));
        }
    }
    let ghost stripped = cs@.skip(pos as int);
    while pos < n && cs[pos] == '\\'
        invariant
            pos <= n,
            n == cs@.len(),
            strip_backslashes(stripped) == strip_backslashes(cs@.skip(pos as int)),
        decreases n - pos,
    {
        proof {
            assert(cs@.skip(pos as int)[0] == cs@[pos as int]);
            assert(cs@.skip(pos as int).drop_first() =~= cs@.skip(pos + 1));
        }
        pos = pos + 1;
    }
    proof {
        if pos < n {
            assert(cs@.skip(pos as int)[0] == cs@[pos as int]);
        } else {
            assert(cs@.skip(pos as int).len() == 0);
        }
        assert(strip_backslashes(cs@.skip(pos as int)) == cs@.skip(pos as int));
    }
    let mut out = String::new();
    out.append("./");
    let mut i: usize = pos;
    while i < n
        invariant
            pos <= i <= n,
            n == cs@.len(),
            out@ == "./"@ + slashify(cs@.subrange(pos as int, i as int)),
        decreases n - i,
    {
        let c = cs[i];
        if c == '\\' {
            push_char(&mut out, '/');
        } else {
            push_char(&mut out, c);
        }
        i = i + 1;
        proof {
            assert(out@ =~= "./"@ + slashify(cs@.subrange(pos as int, i as int)));
        }
    }
    proof {
        assert(cs@.subrange(pos as int, n as int) =~= cs@.skip(pos as int));
        assert(out@ =~= spec_path_to_relative(path@, pwd@));
    }
    out
}

// ---------------------------------------------------------------------------
// Disk space
// ---------------------------------------------------------------------------

/// Relies on `sysinfo::Disks::new_with_refreshed_list`, `Disks::list`,
/// `Disk::mount_point`, `Disk::available_space` and `Disk::total_space`: the
/// currently mounted volumes, each as its mount-point string with available
/// and total bytes.  The list depends on the host, so nothing is promised of
/// its contents.
#[verifier::external_body]
fn disk_list() -> (r: Vec<(String, u64, u64)>) {
    let disks = sysinfo::Disks::new_with_refreshed_list();
    let mut out: Vec<(String, u64, u64)> = Vec::new();
    for d in disks.list() {
        let mount = d.mount_point().to_string_lossy().to_string();
        out.push((mount, d.available_space(), d.total_space()));
    }
    out
}

/// The lookup rule on a given volume list: the first entry whose mount point
/// is exactly the requested one, or `NotFound` naming the mount point.
pub fn find_disk(disks: &Vec<(String, u64, u64)>, disk_mount: &str) -> (r: Result<
    (u64, u64),
    SymlinkerError,
>)
    ensures
        r is Ok <==> (exists|i: int|
            0 <= i < disks@.len() && (#[trigger] disks@[i]).0@ == disk_mount@),
        r matches Ok(sz) ==> (exists|i: int|
            {
                &&& 0 <= i < disks@.len()
                &&& (#[trigger] disks@[i]).0@ == disk_mount@
                &&& disks@[i].1 == sz.0
                &&& disks@[i].2 == sz.1
                &&& forall|j: int| 0 <= j < i ==> (#[trigger] disks@[j]).0@ != disk_mount@
            }),
        r matches Err(e) ==> (e matches SymlinkerError::NotFound { mount } && mount@
            == disk_mount@),
{
    let mut i: usize = 0;
    while i < disks.len()
        invariant
            i <= disks@.len(),
            forall|j: int| 0 <= j < i ==> (#[trigger] disks@[j]).0@ != disk_mount@,
        decreases disks@.len() - i,
    {
        if str_eq(disks[i].0.as_str(), disk_mount) {
            return Ok((disks[i].1, disks[i].2));
        }
        i = i + 1;
    }
    Err(SymlinkerError::NotFound { mount: String::from_str(disk_mount) })
}

/// Looks up a mounted volume by exact mount-point match against the host's
/// live disk list, queried fresh on every call.  Which lookups succeed
/// depends on the machine; a miss is always reported as `NotFound` naming
/// the mount point, and a hit returns that volume's available and total
/// bytes.
pub fn get_disk_size_info(disk_mount: &str) -> (r: Result<(u64, u64), SymlinkerError>)
    ensures
        r matches Err(e) ==> (e matches SymlinkerError::NotFound { mount } && mount@
            == disk_mount@),
{
    let disks = disk_list();
    find_disk(&disks, disk_mount)
}

} // verus!
