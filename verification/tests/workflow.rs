use symlinker::arg::Arg;
use symlinker::config::Config;
use symlinker::decision::{decision_from_input, Decision};
use symlinker::errors::SymlinkerError;
use symlinker::inspect::FsEntry;
use symlinker::managed_link::ManagedLink;
use symlinker::managed_link_list::ManagedLinkList;
use symlinker::store::{appended_log, cleared_log, resolve_file_path, StoreRole};
use symlinker::workflow::{drive_of, log_entry_text, LogEntry, Workflow, WorkflowState};

fn sample_tree() -> FsEntry {
    FsEntry::Dir {
        path: "C:\\data".to_string(),
        readable: true,
        entries: vec![
            FsEntry::File { path: "C:\\data\\a.txt".to_string() },
            FsEntry::File { path: "C:\\data\\b.txt".to_string() },
        ],
    }
}

fn existing_link(id: u32) -> ManagedLink {
    ManagedLink {
        id,
        original_path: "C:\\old".to_string(),
        symlink_path: "C:\\symlinks\\C\\old".to_string(),
        creation_date: "t0".to_string(),
        last_modified: "t0".to_string(),
    }
}

#[test]
fn prepare_derives_symlink_path_from_default() {
    let list = ManagedLinkList { managed_links: vec![] };
    let config = Config::default();
    let wf = Workflow::new().prepare(&list, &config, "C:\\data", "", "2024-01-01 00:00:00");
    match &wf.state {
        WorkflowState::Prepared { link } => {
            assert_eq!(link.id, 1);
            assert_eq!(link.original_path, "C:\\data");
            assert_eq!(link.symlink_path, "C:\\symlinks\\C\\data");
            assert_eq!(link.creation_date, "2024-01-01 00:00:00");
            assert_eq!(link.last_modified, link.creation_date);
        }
        _ => panic!("prepare must yield a prepared workflow"),
    }
}

#[test]
fn prepare_uses_named_target_when_given() {
    let list = ManagedLinkList { managed_links: vec![existing_link(4)] };
    let config = Config::default();
    let wf = Workflow::new().prepare(&list, &config, "C:\\data", "D:\\mirror", "ts");
    match &wf.state {
        WorkflowState::Prepared { link } => {
            assert_eq!(link.id, 5);
            assert_eq!(link.symlink_path, "D:\\mirror\\C\\data");
        }
        _ => panic!("prepare must yield a prepared workflow"),
    }
}

#[test]
fn prepare_now_sets_both_dates_equal() {
    let list = ManagedLinkList { managed_links: vec![] };
    let config = Config::default();
    let wf = Workflow::new().prepare_now(&list, &config, "C:\\data", "");
    match &wf.state {
        WorkflowState::Prepared { link } => {
            assert_eq!(link.id, 1);
            assert_eq!(link.creation_date, link.last_modified);
            assert_eq!(link.symlink_path, "C:\\symlinks\\C\\data");
        }
        _ => panic!("prepare_now must yield a prepared workflow"),
    }
}

#[test]
fn drive_is_inferred_up_to_first_separator() {
    assert_eq!(drive_of("C:\\symlinks\\C\\data").unwrap(), "C:\\");
    assert!(matches!(
        drive_of("nodriveseparator"),
        Err(SymlinkerError::InvalidInput)
    ));
}

#[test]
fn declined_final_gate_leaves_registry_untouched() {
    let mut list = ManagedLinkList { managed_links: vec![existing_link(4)] };
    let before = list.save();
    let config = Config::default();
    let wf = Workflow::new().prepare(&list, &config, "C:\\data", "", "ts");
    let (wf, r) = wf.offer_preview_with(&sample_tree(), Ok((500, 1000)));
    r.expect("the preview must succeed on a readable tree");
    let (wf, listed) = wf.first_gate(Decision::No);
    assert!(listed.is_none());
    let (wf, committed) = wf.second_gate(Decision::No, &mut list);
    assert!(committed.is_none());
    assert!(matches!(wf.state, WorkflowState::Aborted));
    assert_eq!(list.save(), before);
    assert_eq!(wf.log.len(), 2);
    assert_eq!(log_entry_text(&wf.log[1]), "Link creation aborted");
}

#[test]
fn accepted_gates_commit_one_record_with_next_id() {
    let mut list = ManagedLinkList { managed_links: vec![existing_link(4)] };
    let config = Config::default();
    let wf = Workflow::new().prepare(&list, &config, "C:\\data", "", "ts");
    let (wf, r) = wf.offer_preview_with(&sample_tree(), Ok((500, 1000)));
    r.expect("the preview must succeed on a readable tree");
    let (wf, listed) = wf.first_gate(Decision::Yes);
    assert_eq!(
        listed.expect("an affirmative first gate lists the files"),
        vec!["./a.txt".to_string(), "./b.txt".to_string()]
    );
    let (wf, committed) = wf.second_gate(Decision::Yes, &mut list);
    assert_eq!(committed, Some(5));
    assert!(matches!(wf.state, WorkflowState::Committed { id: 5 }));
    assert_eq!(list.managed_links.len(), 2);
    assert_eq!(list.managed_links[1].id, 5);
    assert_eq!(wf.log.len(), 2);
    let first = log_entry_text(&wf.log[0]);
    assert!(first.starts_with("About to create link:\n\t"));
    assert!(first.contains("\n\tOriginal path: C:\\data"));
    assert_eq!(log_entry_text(&wf.log[1]), "Created link with ID 5");
}

#[test]
fn preview_failures_leave_the_workflow_unchanged() {
    let list = ManagedLinkList { managed_links: vec![] };
    let config = Config::default();
    let wf = Workflow::new().prepare(&list, &config, "C:\\data", "", "ts");
    let bad_tree = FsEntry::File { path: "C:\\data".to_string() };
    let (wf, r) = wf.offer_preview_with(&bad_tree, Ok((1, 2)));
    assert!(matches!(r, Err(SymlinkerError::InvalidInput)));
    assert!(matches!(wf.state, WorkflowState::Prepared { .. }));
    assert!(wf.log.is_empty());
    let miss = SymlinkerError::NotFound { mount: "C:\\".to_string() };
    let (wf, r) = wf.offer_preview_with(&sample_tree(), Err(miss));
    assert!(matches!(r, Err(SymlinkerError::NotFound { .. })));
    assert!(matches!(wf.state, WorkflowState::Prepared { .. }));
    assert!(wf.log.is_empty());
}

#[test]
fn symlink_path_without_separator_is_invalid_input() {
    let wf = Workflow {
        state: WorkflowState::Prepared {
            link: ManagedLink {
                id: 1,
                original_path: "data".to_string(),
                symlink_path: "noseparator".to_string(),
                creation_date: "t".to_string(),
                last_modified: "t".to_string(),
            },
        },
        log: vec![],
    };
    let (_, r) = wf.offer_preview_with(&sample_tree(), Ok((1, 2)));
    assert!(matches!(r, Err(SymlinkerError::InvalidInput)));
}

#[test]
fn rendered_record_lists_every_field() {
    let link = existing_link(9);
    assert_eq!(
        link.render(),
        "Id: 9\nOriginal path: C:\\old\nSymlink path: C:\\symlinks\\C\\old\nCreation date: t0\nLast modified: t0"
    );
}

#[test]
fn preview_log_entry_indents_the_record() {
    let entry = LogEntry::Preview { link: existing_link(2) };
    assert_eq!(
        log_entry_text(&entry),
        "About to create link:\n\tId: 2\n\tOriginal path: C:\\old\n\tSymlink path: C:\\symlinks\\C\\old\n\tCreation date: t0\n\tLast modified: t0"
    );
}

#[test]
fn operator_input_is_trimmed_and_lowercased() {
    assert_eq!(decision_from_input("y"), Decision::Yes);
    assert_eq!(decision_from_input(" Y \n"), Decision::Yes);
    assert_eq!(decision_from_input("yes"), Decision::No);
    assert_eq!(decision_from_input(""), Decision::No);
    assert_eq!(decision_from_input("n"), Decision::No);
}

#[test]
fn action_tokens_parse_case_insensitively() {
    assert_eq!(Arg::from_str("add"), Arg::Add);
    assert_eq!(Arg::from_str(" A "), Arg::Add);
    assert_eq!(Arg::from_str("Remove"), Arg::Remove);
    assert_eq!(Arg::from_str("l"), Arg::List);
    assert_eq!(Arg::from_str("HELP"), Arg::Help);
    assert_eq!(Arg::from_str("frobnicate"), Arg::Unknown);
    assert_eq!(Arg::from_str(""), Arg::Unknown);
}

#[test]
fn run_log_contents_append_with_newline() {
    assert_eq!(cleared_log(), "");
    let once = appended_log("", "first message");
    assert_eq!(once, "first message\n");
    assert_eq!(appended_log(&once, "second"), "first message\nsecond\n");
}

#[test]
fn resolved_file_paths_end_with_the_file_name() {
    if let Some(p) = resolve_file_path(StoreRole::Config, "config.json") {
        assert!(p.ends_with("/config.json"));
    }
    if let Some(p) = resolve_file_path(StoreRole::Data, "managed_links.json") {
        assert!(p.ends_with("/managed_links.json"));
    }
}
