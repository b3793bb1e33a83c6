use symlinker::config::Config;
use symlinker::decision::Decision;
use symlinker::errors::SymlinkerError;
use symlinker::managed_link::ManagedLink;
use symlinker::managed_link_list::ManagedLinkList;
use symlinker::store::LoadOutcome;

fn link(id: u32, original: &str, sym: &str, ts: &str) -> ManagedLink {
    ManagedLink {
        id,
        original_path: original.to_string(),
        symlink_path: sym.to_string(),
        creation_date: ts.to_string(),
        last_modified: ts.to_string(),
    }
}

#[test]
fn encode_one_link_exact_text() {
    let l = link(1, "C:\\data", "C:\\symlinks\\C\\data", "t1");
    assert_eq!(
        l.encode(),
        "{\"id\":1,\"original_path\":\"C:\\\\data\",\"symlink_path\":\"C:\\\\symlinks\\\\C\\\\data\",\"creation_date\":\"t1\",\"last_modified\":\"t1\"}"
    );
}

#[test]
fn encode_empty_registry_exact_text() {
    let list = ManagedLinkList { managed_links: vec![] };
    assert_eq!(list.encode(), "{\"managed_links\":[]}");
}

#[test]
fn registry_round_trip() {
    let list = ManagedLinkList {
        managed_links: vec![
            link(1, "C:\\data", "C:\\symlinks\\C\\data", "2024-01-02 03:04:05"),
            link(5, "C:\\games\\old", "D:\\mirror\\C\\games\\old", "2024-02-03 04:05:06"),
            link(7, "path with \"quotes\" and \\slashes\\", "D:\\x", "ts"),
        ],
    };
    let text = list.save();
    let reloaded = ManagedLinkList::parse(&text).expect("the saved registry must parse");
    assert_eq!(reloaded.managed_links.len(), 3);
    for (a, b) in list.managed_links.iter().zip(reloaded.managed_links.iter()) {
        assert_eq!(a.id, b.id);
        assert_eq!(a.original_path, b.original_path);
        assert_eq!(a.symlink_path, b.symlink_path);
        assert_eq!(a.creation_date, b.creation_date);
        assert_eq!(a.last_modified, b.last_modified);
    }
}

#[test]
fn registry_encoding_is_real_json() {
    let list = ManagedLinkList {
        managed_links: vec![link(3, "C:\\data", "C:\\symlinks\\C\\data", "t")],
    };
    let text = list.save();
    let v: serde_json::Value = serde_json::from_str(&text).expect("valid JSON");
    assert_eq!(v["managed_links"][0]["id"].as_u64(), Some(3));
    assert_eq!(v["managed_links"][0]["original_path"].as_str(), Some("C:\\data"));
    assert_eq!(
        v["managed_links"][0]["symlink_path"].as_str(),
        Some("C:\\symlinks\\C\\data")
    );
}

#[test]
fn config_encoding_is_real_json() {
    let text = Config::default().save();
    let v: serde_json::Value = serde_json::from_str(&text).expect("valid JSON");
    assert_eq!(v["create_backup"].as_bool(), Some(true));
    assert_eq!(v["backup_dir"].as_str(), Some("C:\\symlinker_backups"));
    assert_eq!(v["default_symlink_dir"].as_str(), Some("C:\\symlinks"));
}

#[test]
fn load_absent_registry_creates_default() {
    match ManagedLinkList::load(None) {
        LoadOutcome::Created { value, file_text } => {
            assert_eq!(value.managed_links.len(), 0);
            assert_eq!(file_text, "{\"managed_links\":[]}");
        }
        _ => panic!("an absent file must yield the default and its text"),
    }
}

#[test]
fn load_absent_config_creates_default() {
    match Config::load(None) {
        LoadOutcome::Created { value, file_text } => {
            assert!(value.create_backup);
            assert_eq!(value.backup_dir, "C:\\symlinker_backups");
            assert_eq!(value.default_symlink_dir, "C:\\symlinks");
            assert_eq!(
                file_text,
                "{\"create_backup\":true,\"backup_dir\":\"C:\\\\symlinker_backups\",\"default_symlink_dir\":\"C:\\\\symlinks\"}"
            );
        }
        _ => panic!("an absent file must yield the default and its text"),
    }
}

#[test]
fn load_valid_registry_returns_it() {
    let text = "{\"managed_links\":[{\"id\":2,\"original_path\":\"a\",\"symlink_path\":\"b\",\"creation_date\":\"c\",\"last_modified\":\"d\"}]}";
    match ManagedLinkList::load(Some(text)) {
        LoadOutcome::Loaded { value } => {
            assert_eq!(value.managed_links.len(), 1);
            assert_eq!(value.managed_links[0].id, 2);
            assert_eq!(value.managed_links[0].original_path, "a");
        }
        _ => panic!("a valid file must load"),
    }
}

#[test]
fn load_corrupt_registry_is_invalid() {
    assert!(matches!(
        ManagedLinkList::load(Some("{\"managed_links\":[")),
        LoadOutcome::Invalid
    ));
    assert!(matches!(ManagedLinkList::load(Some("")), LoadOutcome::Invalid));
    assert!(matches!(
        ManagedLinkList::load(Some("{\"managed_links\":[]}   ")),
        LoadOutcome::Invalid
    ));
}

#[test]
fn load_corrupt_config_is_invalid() {
    assert!(matches!(Config::load(Some("not json")), LoadOutcome::Invalid));
    assert!(matches!(
        Config::load(Some("{\"create_backup\":maybe}")),
        LoadOutcome::Invalid
    ));
}

#[test]
fn corrupt_config_regenerated_on_acceptance() {
    match Config::resolve_corrupt(Decision::Yes) {
        Ok((c, text)) => {
            assert!(c.create_backup);
            assert_eq!(text, c.save());
        }
        Err(_) => panic!("acceptance must regenerate the default"),
    }
}

#[test]
fn corrupt_config_declined_is_fatal() {
    assert!(matches!(
        Config::resolve_corrupt(Decision::No),
        Err(SymlinkerError::Config)
    ));
}

#[test]
fn config_round_trip() {
    let c = Config {
        create_backup: false,
        backup_dir: "E:\\back \"up\"".to_string(),
        default_symlink_dir: "F:\\links".to_string(),
    };
    let text = c.save();
    let d = Config::parse(&text).expect("the saved configuration must parse");
    assert_eq!(d.create_backup, false);
    assert_eq!(d.backup_dir, c.backup_dir);
    assert_eq!(d.default_symlink_dir, c.default_symlink_dir);
}

#[test]
fn rejects_leading_zero_ids() {
    let text = "{\"managed_links\":[{\"id\":01,\"original_path\":\"a\",\"symlink_path\":\"b\",\"creation_date\":\"c\",\"last_modified\":\"d\"}]}";
    assert!(matches!(ManagedLinkList::load(Some(text)), LoadOutcome::Invalid));
}

#[test]
fn rejects_id_beyond_u32() {
    let text = "{\"managed_links\":[{\"id\":4294967296,\"original_path\":\"a\",\"symlink_path\":\"b\",\"creation_date\":\"c\",\"last_modified\":\"d\"}]}";
    assert!(matches!(ManagedLinkList::load(Some(text)), LoadOutcome::Invalid));
}

#[test]
fn get_last_id_is_the_maximum() {
    let empty = ManagedLinkList { managed_links: vec![] };
    assert_eq!(empty.get_last_id(), 0);
    let list = ManagedLinkList {
        managed_links: vec![link(1, "a", "b", "t"), link(5, "c", "d", "t"), link(3, "e", "f", "t")],
    };
    assert_eq!(list.get_last_id(), 5);
}
