//! The link-creation workflow: from an original path and an optional target
//! to a committed registry record, through a preview and two confirmation
//! gates.
//!
//! The workflow is a state machine.  Each transition is a function from the
//! current state and the operator's input to the next state; the caller
//! performs the console and file work between transitions and feeds the
//! results back in.  The run-log entries the workflow produces are part of
//! its state, so what is logged, and in which order, is part of the
//! contract.

use vstd::prelude::*;
use vstd::string::StringExecFns;
use vstd::string::StrSliceExecFns;
use crate::config::Config;
use crate::decision::Decision;
use crate::errors::SymlinkerError;
use crate::inspect::{
    get_files_in_dir, path_to_relative, scan_err_matches, spec_path_to_relative, spec_scan,
    FsEntry, get_disk_size_info,
};
use crate::managed_link::{render_link, LinkView, ManagedLink};
use crate::managed_link_list::{spec_last_id, views_of, ManagedLinkList};
use crate::text::{chars_of, dec_chars, push_char, push_decimal};

verus! {

// ---------------------------------------------------------------------------
// Symlink-path derivation
// ---------------------------------------------------------------------------

/// The original path with every volume separator removed, so the symlink
/// tree mirrors the source tree's structure.
pub open spec fn remove_colons(s: Seq<char>) -> Seq<char>
    decreases s.len(),
{
    if s.len() == 0 {
        Seq::empty()
    } else {
        remove_colons(s.drop_last()) + (if s.last() == ':' {
            Seq::<char>::empty()
        } else {
            seq![s.last()]
        })
    }
}

/// The derived symlink path: the target root (the configured default when no
/// target is named), a separator, and the structural mirror of the original
/// path.
pub open spec fn spec_symlink_path(
    original: Seq<char>,
    target: Seq<char>,
    default_dir: Seq<char>,
) -> Seq<char> {
    (if target.len() == 0 {
        default_dir
    } else {
        target
    }) + "\\"@ + remove_colons(original)
}

/// Appends the original path with its colons removed.
fn push_removed_colons(out: &mut String, s: &str)
    ensures
        final(out)@ == old(out)@ + remove_colons(s@),
{
    let n = s.unicode_len();
    let mut i: usize = 0;
    while i < n
        invariant
            n == s@.len(),
            i <= n,
            out@ == old(out)@ + remove_colons(s@.take(i as int)),
        decreases n - i,
    {
        let c = s.get_char(i);
        if c != ':' {
            push_char(out, c);
        }
        i = i + 1;
        proof {
            assert(s@.take(i as int).drop_last() =~= s@.take(i - 1));
            assert(out@ =~= old(out)@ + remove_colons(s@.take(i as int)));
        }
    }
    proof {
        assert(s@.take(n as int) =~= s@);
    }
}

// ---------------------------------------------------------------------------
// Target-drive inference
// ---------------------------------------------------------------------------

/// The position of the first backslash, if any.
pub open spec fn find_backslash(s: Seq<char>) -> Option<int>
    decreases s.len(),
{
    if s.len() == 0 {
        None
    } else if s[0] == '\\' {
        Some(0)
    } else {
        match find_backslash(s.drop_first()) {
            Some(i) => Some(i + 1),
            None => None,
        }
    }
}

/// The drive of a symlink path: the prefix up to and including the first
/// separator, taken as the mount point of the destination volume.  A path
/// without any separator has no drive.
pub open spec fn spec_drive_of(s: Seq<char>) -> Option<Seq<char>> {
    match find_backslash(s) {
        Some(i) => Some(s.take(i + 1)),
        None => None,
    }
}

/// Infers the destination volume's mount point from a symlink path.  A path
/// without any separator is rejected as invalid input.
pub fn drive_of(path: &str) -> (r: Result<String, SymlinkerError>)
    ensures
        match r {
            Ok(d) => spec_drive_of(path@) == Some(d@),
            Err(e) => spec_drive_of(path@) is None && e == SymlinkerError::InvalidInput,
        },
{
    let cs = chars_of(path);
    let n = cs.len();
    let mut i: usize = 0;
    while i < n && cs[i] != '\\'
        invariant
            n == cs@.len(),
            cs@ == path@,
            i <= n,
            forall|j: int| 0 <= j < i ==> cs@[j] != '\\',
        decreases n - i,
    {
        i = i + 1;
    }
    proof {
        if i < n {
            lemma_find_backslash_at(cs@, i as int);
        } else {
            lemma_find_backslash_none(cs@);
        }
    }
    if i < n {
        let mut out = String::new();
        let mut j: usize = 0;
        while j < i + 1
            invariant
                i < n,
                n == cs@.len(),
                j <= i + 1,
                out@ == cs@.take(j as int),
            decreases i + 1 - j,
        {
            push_char(&mut out, cs[j]);
            j = j + 1;
            proof {
                assert(out@ =~= cs@.take(j as int));
            }
        }
        Ok(out)
    } else {
        Err(SymlinkerError::InvalidInput)
    }
}

proof fn lemma_find_backslash_at(s: Seq<char>, i: int)
    requires
        0 <= i < s.len(),
        s[i] == '\\',
        forall|j: int| 0 <= j < i ==> s[j] != '\\',
    ensures
        find_backslash(s) == Some(i),
    decreases s.len(),
{
    if s[0] != '\\' {
        assert(s.drop_first()[i - 1] == s[i]);
        lemma_find_backslash_at(s.drop_first(), i - 1);
    }
}

proof fn lemma_find_backslash_none(s: Seq<char>)
    requires
        forall|j: int| 0 <= j < s.len() ==> s[j] != '\\',
    ensures
        find_backslash(s) is None,
    decreases s.len(),
{
    if s.len() > 0 {
        lemma_find_backslash_none(s.drop_first());
    }
}

// ---------------------------------------------------------------------------
// The state machine
// ---------------------------------------------------------------------------

pub enum WorkflowState {
    /// No link creation is underway.
    Idle,
    /// A candidate record has been built and awaits its preview.
    Prepared { link: ManagedLink },
    /// The preview has been computed and shown; the first gate is open.
    PreviewOffered { link: ManagedLink, files: Vec<String>, available: u64, total: u64 },
    /// The file list was offered; the final confirmation gate is open.
    AwaitingFinal { link: ManagedLink },
    /// The record was appended to the registry.
    Committed { id: u32 },
    /// The operator declined; the registry is untouched.
    Aborted,
}

/// The mathematical value of a workflow state.
pub ghost enum WorkflowStateView {
    Idle,
    Prepared { link: LinkView },
    PreviewOffered { link: LinkView, files: Seq<Seq<char>>, available: u64, total: u64 },
    AwaitingFinal { link: LinkView },
    Committed { id: u32 },
    Aborted,
}

impl View for WorkflowState {
    type V = WorkflowStateView;

    open spec fn view(&self) -> WorkflowStateView {
        match self {
            WorkflowState::Idle => WorkflowStateView::Idle,
            WorkflowState::Prepared { link } => WorkflowStateView::Prepared { link: link@ },
            WorkflowState::PreviewOffered { link, files, available, total } => {
                WorkflowStateView::PreviewOffered {
                    link: link@,
                    files: crate::inspect::strings_view(files@),
                    available: *available,
                    total: *total,
                }
            },
            WorkflowState::AwaitingFinal { link } => WorkflowStateView::AwaitingFinal {
                link: link@,
            },
            WorkflowState::Committed { id } => WorkflowStateView::Committed { id: *id },
            WorkflowState::Aborted => WorkflowStateView::Aborted,
        }
    }
}

/// One entry of the run log.
pub enum LogEntry {
    /// The preview of a candidate record, logged before the gates.
    Preview { link: ManagedLink },
    /// The operator declined the final gate.
    Aborted,
    /// A record was committed under this identifier.
    Created { id: u32 },
}

/// The mathematical value of a run-log entry.
pub ghost enum LogEntryView {
    Preview { link: LinkView },
    Aborted,
    Created { id: u32 },
}

impl View for LogEntry {
    type V = LogEntryView;

    open spec fn view(&self) -> LogEntryView {
        match self {
            LogEntry::Preview { link } => LogEntryView::Preview { link: link@ },
            LogEntry::Aborted => LogEntryView::Aborted,
            LogEntry::Created { id } => LogEntryView::Created { id: *id },
        }
    }
}

/// The mathematical values of the run log.
pub open spec fn log_views(es: Seq<LogEntry>) -> Seq<LogEntryView> {
    es.map_values(|e: LogEntry| e@)
}

/// The candidate record the workflow builds: the next identifier, the
/// original path, the derived symlink path, and one timestamp for both date
/// fields.
pub open spec fn spec_prepared_link(
    vs: Seq<LinkView>,
    cfg: crate::config::ConfigView,
    original: Seq<char>,
    target: Seq<char>,
    ts: Seq<char>,
) -> LinkView {
    LinkView {
        id: (spec_last_id(vs) + 1) as u32,
        original_path: original,
        symlink_path: spec_symlink_path(original, target, cfg.default_symlink_dir),
        creation_date: ts,
        last_modified: ts,
    }
}

/// An interactive link creation in progress: its state and the run-log
/// entries it has produced, in order.
pub struct Workflow {
    pub state: WorkflowState,
    pub log: Vec<LogEntry>,
}

/// Relies on `chrono::Local::now`, rendered through its display form: the
/// current local time.  The value depends on the clock, so nothing is
/// promised of it.
#[verifier::external_body]
fn now_string() -> (r: String) {
    chrono::Local::now().to_string()
}

impl Workflow {
    /// A workflow that has not started.
    pub fn new() -> (r: Workflow)
        ensures
            r.state@ is Idle,
            r.log@ == Seq::<LogEntry>::empty(),
    {
        Workflow { state: WorkflowState::Idle, log: Vec::new() }
    }

    /// Builds the candidate record from the registry, the configuration, the
    /// original path, the optional target root (empty: use the configured
    /// default) and one timestamp for both date fields.
    pub fn prepare(
        self,
        list: &ManagedLinkList,
        config: &Config,
        original_path: &str,
        target: &str,
        timestamp: &str,
    ) -> (r: Workflow)
        requires
            self.state@ is Idle,
            spec_last_id(list@) < u32::MAX,
        ensures
            r.state@ == (WorkflowStateView::Prepared {
                link: spec_prepared_link(list@, config@, original_path@, target@, timestamp@),
            }),
            r.log@ == self.log@,
    {
        let id = list.get_last_id() + 1;
        let mut sym = if target.unicode_len() == 0 {
            config.default_symlink_dir.clone()
        } else {
            String::from_str(target)
        };
        sym.append("\\");
        push_removed_colons(&mut sym, original_path);
        let link = ManagedLink {
            id,
            original_path: String::from_str(original_path),
            symlink_path: sym,
            creation_date: String::from_str(timestamp),
            last_modified: String::from_str(timestamp),
        };
        Workflow { state: WorkflowState::Prepared { link }, log: self.log }
    }

    /// As `prepare`, with the timestamp captured from the local clock; both
    /// date fields receive the same capture.
    pub fn prepare_now(
        self,
        list: &ManagedLinkList,
        config: &Config,
        original_path: &str,
        target: &str,
    ) -> (r: Workflow)
        requires
            self.state@ is Idle,
            spec_last_id(list@) < u32::MAX,
        ensures
            r.state@ matches WorkflowStateView::Prepared { link } && link == spec_prepared_link(
                list@,
                config@,
                original_path@,
                target@,
                link.creation_date,
            ) && link.creation_date == link.last_modified,
            r.log@ == self.log@,
    {
        let ts = now_string();
        self.prepare(list, config, original_path, target, ts.as_str())
    }

    /// Computes the preview from the directory tree under the original path
    /// and a disk-space query result for the destination volume: the
    /// affected files, and the volume's available and total bytes.  On
    /// success the preview is logged; on any failure the workflow is
    /// unchanged.  Failures, in the order they are checked: the tree
    /// enumeration's own error; `InvalidInput` when the symlink path has no
    /// separator; the disk query's error.
    pub fn offer_preview_with(
        self,
        tree: &FsEntry,
        disk: Result<(u64, u64), SymlinkerError>,
    ) -> (r: (Workflow, Result<(), SymlinkerError>))
        requires
            self.state@ is Prepared,
        ensures
            ({
                let link = self.state@->Prepared_link;
                match spec_scan(*tree, 0) {
                    Err(se) => r.0 == self && (r.1 matches Err(e) && scan_err_matches(se, e)),
                    Ok(fs) => match spec_drive_of(link.symlink_path) {
                        None => r.0 == self && r.1 == Err::<(), SymlinkerError>(
                            SymlinkerError::InvalidInput,
                        ),
                        Some(_) => match disk {
                            Err(e) => r.0 == self && r.1 == Err::<(), SymlinkerError>(e),
                            Ok(sz) => {
                                &&& r.0.state@ == (WorkflowStateView::PreviewOffered {
                                    link,
                                    files: fs,
                                    available: sz.0,
                                    total: sz.1,
                                })
                                &&& log_views(r.0.log@) == log_views(self.log@).push(
                                    LogEntryView::Preview { link },
                                )
                                &&& r.1 is Ok
                            },
                        },
                    },
                }
            }),
    {
        let files = match get_files_in_dir(tree, 0) {
            Ok(files) => files,
            Err(e) => {
                return (self, Err(e));
            },
        };
        let link = match self.state {
            WorkflowState::Prepared { link } => link,
            _ => {
                proof {
                    assert(false);
                }
                return (self, Err(SymlinkerError::InvalidInput));
            },
        };
        let mut log = self.log;
        match drive_of(link.symlink_path.as_str()) {
            Ok(_) => {},
            Err(e) => {
                let w = Workflow { state: WorkflowState::Prepared { link }, log };
                proof {
                    assert(w == self);
                }
                return (w, Err(e));
            },
        }
        match disk {
            Err(e) => {
                let w = Workflow { state: WorkflowState::Prepared { link }, log };
                proof {
                    assert(w == self);
                }
                (w, Err(e))
            },
            Ok(sz) => {
                let ghost log_before = log@;
                log.push(LogEntry::Preview { link: link.duplicate() });
                proof {
                    assert(log_views(log@) =~= log_views(log_before).push(
                        LogEntryView::Preview { link: link@ },
                    ));
                }
                let w = Workflow {
                    state: WorkflowState::PreviewOffered {
                        link,
                        files,
                        available: sz.0,
                        total: sz.1,
                    },
                    log,
                };
                (w, Ok(()))
            },
        }
    }

    /// As `offer_preview_with`, with the disk space queried from the host
    /// for the volume inferred from the symlink path.  The query depends on
    /// the machine: a missing volume surfaces as `NotFound` naming the
    /// inferred mount point.
    pub fn offer_preview(self, tree: &FsEntry) -> (r: (Workflow, Result<(), SymlinkerError>))
        requires
            self.state@ is Prepared,
        ensures
            ({
                let link = self.state@->Prepared_link;
                match spec_scan(*tree, 0) {
                    Err(se) => r.0 == self && (r.1 matches Err(e) && scan_err_matches(se, e)),
                    Ok(fs) => match spec_drive_of(link.symlink_path) {
                        None => r.0 == self && r.1 == Err::<(), SymlinkerError>(
                            SymlinkerError::InvalidInput,
                        ),
                        Some(drive) => match r.1 {
                            Err(e) => r.0 == self && (e matches SymlinkerError::NotFound {
                                mount,
                            } && mount@ == drive),
                            Ok(_) => r.0.state@ matches WorkflowStateView::PreviewOffered {
                                link: l2,
                                files: f2,
                                ..
                            } && l2 == link && f2 == fs && log_views(r.0.log@) == log_views(
                                self.log@,
                            ).push(LogEntryView::Preview { link }),
                        },
                    },
                }
            }),
    {
        let disk = match &self.state {
            WorkflowState::Prepared { link } => {
                match drive_of(link.symlink_path.as_str()) {
                    Ok(drive) => get_disk_size_info(drive.as_str()),
                    Err(_) => Ok((0, 0)),
                }
            },
            _ => Ok((0, 0)),
        };
        self.offer_preview_with(tree, disk)
    }

    /// The first gate: whether to list the affected files.  Either answer
    /// advances to the final confirmation; an affirmative one yields every
    /// affected file rendered relative to the original path.
    pub fn first_gate(self, d: Decision) -> (r: (Workflow, Option<Vec<String>>))
        requires
            self.state@ is PreviewOffered,
        ensures
            ({
                let link = self.state@->PreviewOffered_link;
                let fs = self.state@->PreviewOffered_files;
                &&& r.0.state@ == (WorkflowStateView::AwaitingFinal { link })
                &&& r.0.log@ == self.log@
                &&& (d == Decision::Yes ==> (r.1 matches Some(listed)
                    && crate::inspect::strings_view(listed@) == fs.map_values(
                    |f: Seq<char>| spec_path_to_relative(f, link.original_path),
                )))
                &&& (d == Decision::No ==> r.1 is None)
            }),
    {
        let (link, files) = match self.state {
            WorkflowState::PreviewOffered { link, files, .. } => (link, files),
            _ => {
                proof {
                    assert(false);
                }
                return (self, None);
            },
        };
        let listed = match d {
            Decision::Yes => {
                let mut out: Vec<String> = Vec::new();
                let mut i: usize = 0;
                while i < files.len()
                    invariant
                        i <= files@.len(),
                        out@.len() == i,
                        crate::inspect::strings_view(out@) == crate::inspect::strings_view(
                            files@,
                        ).take(i as int).map_values(
                            |f: Seq<char>| spec_path_to_relative(f, link.original_path@),
                        ),
                    decreases files@.len() - i,
                {
                    let rel = path_to_relative(files[i].as_str(), link.original_path.as_str());
                    let ghost out_before = out@;
                    out.push(rel);
                    i = i + 1;
                    proof {
                        let base = link.original_path@;
                        let goal = crate::inspect::strings_view(files@).take(i as int).map_values(
                            |f: Seq<char>| spec_path_to_relative(f, base),
                        );
                        assert(out@ == out_before.push(rel));
                        assert(out@.len() == i);
                        assert forall|k: int| 0 <= k < i implies crate::inspect::strings_view(
                            out@,
                        )[k] == goal[k] by {
                            assert(goal[k] == spec_path_to_relative(files@[k]@, base));
                            if k < i - 1 {
                                assert(out@[k] == out_before[k]);
                                assert(crate::inspect::strings_view(out_before)[k]
                                    == spec_path_to_relative(files@[k]@, base));
                            } else {
                                assert(out@[k] == rel);
                            }
                        }
                        assert(crate::inspect::strings_view(out@) =~= goal);
                    }
                }
                proof {
                    assert(crate::inspect::strings_view(files@).take(files@.len() as int)
                        =~= crate::inspect::strings_view(files@));
                }
                Some(out)
            },
            Decision::No => None,
        };
        let w = Workflow { state: WorkflowState::AwaitingFinal { link }, log: self.log };
        (w, listed)
    }

    /// The final gate.  An affirmative answer commits: the record is
    /// appended to the registry and the commit is logged under the record's
    /// identifier.  Any other answer aborts: the registry is untouched and
    /// the abort is logged.
    pub fn second_gate(self, d: Decision, list: &mut ManagedLinkList) -> (r: (Workflow, Option<
        u32,
    >))
        requires
            self.state@ is AwaitingFinal,
        ensures
            ({
                let link = self.state@->AwaitingFinal_link;
                &&& (d == Decision::Yes ==> {
                    &&& final(list)@ == old(list)@.push(link)
                    &&& r.0.state@ == (WorkflowStateView::Committed { id: link.id })
                    &&& log_views(r.0.log@) == log_views(self.log@).push(
                        LogEntryView::Created { id: link.id },
                    )
                    &&& r.1 == Some(link.id)
                })
                &&& (d == Decision::No ==> {
                    &&& final(list)@ == old(list)@
                    &&& r.0.state@ is Aborted
                    &&& log_views(r.0.log@) == log_views(self.log@).push(LogEntryView::Aborted)
                    &&& r.1 is None
                })
            }),
    {
        let link = match self.state {
            WorkflowState::AwaitingFinal { link } => link,
            _ => {
                proof {
                    assert(false);
                }
                return (self, None);
            },
        };
        let mut log = self.log;
        let ghost log_before = log@;
        match d {
            Decision::Yes => {
                let id = link.id;
                let ghost list_before = list@;
                log.push(LogEntry::Created { id });
                proof {
                    assert(log_views(log@) =~= log_views(log_before).push(
                        LogEntryView::Created { id },
                    ));
                }
                let ghost link_view = link@;
                list.managed_links.push(link);
                proof {
                    assert(views_of(list.managed_links@) =~= list_before.push(link_view));
                }
                (Workflow { state: WorkflowState::Committed { id }, log }, Some(id))
            },
            Decision::No => {
                log.push(LogEntry::Aborted);
                proof {
                    assert(log_views(log@) =~= log_views(log_before).push(LogEntryView::Aborted));
                }
                (Workflow { state: WorkflowState::Aborted, log }, None)
            },
        }
    }
}

// ---------------------------------------------------------------------------
// Run-log rendering
// ---------------------------------------------------------------------------

/// A rendering with every newline followed by a tab, so a multi-line record
/// stays visually nested under its log heading.
pub open spec fn indent_newlines(s: Seq<char>) -> Seq<char>
    decreases s.len(),
{
    if s.len() == 0 {
        Seq::empty()
    } else {
        indent_newlines(s.drop_last()) + (if s.last() == '\n' {
            seq!['\n', '\t']
        } else {
            seq![s.last()]
        })
    }
}

/// The text of one run-log entry.
pub open spec fn spec_log_text(e: LogEntryView) -> Seq<char> {
    match e {
        LogEntryView::Preview { link } => "About to create link:\n\t"@ + indent_newlines(
            render_link(link),
        ),
        LogEntryView::Aborted => "Link creation aborted"@,
        LogEntryView::Created { id } => "Created link with ID "@ + dec_chars(id as nat),
    }
}

/// Appends `s` with every newline followed by a tab.
fn push_indented(out: &mut String, s: &str)
    ensures
        final(out)@ == old(out)@ + indent_newlines(s@),
{
    let n = s.unicode_len();
    let mut i: usize = 0;
    while i < n
        invariant
            n == s@.len(),
            i <= n,
            out@ == old(out)@ + indent_newlines(s@.take(i as int)),
        decreases n - i,
    {
        let c = s.get_char(i);
        push_char(out, c);
        if c == '\n' {
            push_char(out, '\t');
        }
        i = i + 1;
        proof {
            assert(s@.take(i as int).drop_last() =~= s@.take(i - 1));
            assert(out@ =~= old(out)@ + indent_newlines(s@.take(i as int)));
        }
    }
    proof {
        assert(s@.take(n as int) =~= s@);
    }
}

/// Renders one run-log entry as the message the log receives.
pub fn log_entry_text(e: &LogEntry) -> (r: String)
    ensures
        r@ == spec_log_text(e@),
{
    match e {
        LogEntry::Preview { link } => {
            let mut out = String::new();
            out.append("About to create link:\n\t");
            let rendered = link.render();
            push_indented(&mut out, rendered.as_str());
            proof {
                assert(out@ =~= spec_log_text(e@));
            }
            out
        },
        LogEntry::Aborted => String::from_str("Link creation aborted"),
        LogEntry::Created { id } => {
            let mut out = String::new();
            out.append("Created link with ID ");
            push_decimal(&mut out, *id as u64);
            proof {
                assert(out@ =~= spec_log_text(e@));
            }
            out
        },
    }
}

} // verus!
