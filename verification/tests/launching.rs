use dawn_launcher::db::Database;
use dawn_launcher::launch::{build_item_from_path, classification_entries, item_entry, item_entry_checked, item_for_path_with, item_icon_bytes, open_item, open_item_with, OpenOutcome};
use dawn_launcher::models::Item;
use dawn_launcher::native::{get_file_icon, get_shortcut_file_info, is_fullscreen, open_file_location, open_path, search_path, u16_to_string};

fn with_target(kind: i64, target: Option<&str>) -> Item {
    let mut it = build_item_from_path("https://x", 1, 1);
    it.kind = kind;
    it.data.target = target.map(|t| t.to_string());
    it
}

#[test]
fn item_kinds() {
    let mut it = build_item_from_path("https://example.com", 1, 1);
    assert!(it.is_url());
    for (k, f) in [(0, Item::is_file as fn(&Item) -> bool), (1, Item::is_folder), (3, Item::is_system), (4, Item::is_appx)] {
        it.kind = k;
        assert!(f(&it));
        assert!(!it.is_url());
    }
}

#[test]
fn build_item_for_url() {
    let it = build_item_from_path("\"https://example.com/a\"", 7, 3);
    assert_eq!(it.kind, 2);
    assert_eq!(it.name, "https://example.com/a");
    assert_eq!(it.data.target.as_deref(), Some("https://example.com/a"));
    assert_eq!(it.classification_id, 7);
    assert_eq!(it.order, 3);
    assert_eq!(it.id, 0);
    assert_eq!(it.data.icon, None);
    assert_eq!(it.data.open_number, 0);
}

#[test]
fn build_item_for_file_folder_and_shortcut() {
    let f = item_for_path_with("/home/u/Game.Launcher.exe", 1, 1, false);
    assert_eq!(f.kind, 0);
    assert_eq!(f.name, "Game.Launcher");
    let d = item_for_path_with("\"/home/u/My Docs\"", 1, 1, true);
    assert_eq!(d.kind, 1);
    assert_eq!(d.name, "My Docs");
    assert_eq!(d.data.target.as_deref(), Some("/home/u/My Docs"));
    let s = item_for_path_with("/desk/Editor.LNK", 1, 1, false);
    assert_eq!(s.kind, 0);
    assert_eq!(s.name, "Editor");
    assert_eq!(s.data.params, None);
    let real = build_item_from_path("/", 1, 1);
    assert_eq!(real.kind, 1);
}

#[test]
fn opening_items() {
    assert!(matches!(open_item_with(&with_target(0, None), true, true), OpenOutcome::NoTarget));
    assert!(matches!(open_item_with(&with_target(0, Some("")), true, true), OpenOutcome::NoTarget));
    assert!(matches!(open_item_with(&with_target(0, Some("/x")), false, true), OpenOutcome::Missing(t) if t == "/x"));
    assert!(matches!(open_item_with(&with_target(2, Some("https://a")), false, true), OpenOutcome::Opened(t) if t == "https://a"));
    assert!(matches!(open_item_with(&with_target(0, Some("/x")), true, true), OpenOutcome::Opened(_)));
    assert!(matches!(open_item_with(&with_target(0, Some("/x")), true, false), OpenOutcome::Failed(t) if t == "/x"));
    assert_eq!(open_item(&with_target(0, Some("/definitely/not/here"))), None);
    assert_eq!(open_item(&with_target(0, None)), None);
    assert_eq!(open_item(&with_target(2, Some("https://a"))), Some("https://a".to_string()));
    assert_eq!(open_item(&with_target(1, Some("/"))), Some("/".to_string()));
}

#[test]
fn list_rows() {
    let mut it = with_target(0, None);
    it.id = 9;
    it.name = "n".to_string();
    it.data.icon = Some("data:image/png;base64,TWFu".to_string());
    let e = item_entry(&it, true);
    assert_eq!(e.id, 9);
    assert!(e.invalid);
    assert!(!e.selected);
    assert_eq!(e.icon, Some(b"Man".to_vec()));
    assert_eq!(item_icon_bytes(&it), Some(b"Man".to_vec()));
    it.data.target = Some("/t".to_string());
    assert!(!item_entry(&it, true).invalid);
    assert!(item_entry(&it, false).invalid);
    assert!(item_entry_checked(&it).invalid);
    it.kind = 2;
    assert!(!item_entry(&it, false).invalid);
    it.data.icon = Some("not a data url".to_string());
    assert_eq!(item_entry(&it, false).icon, None);
    let mut db = Database::new();
    db.ensure_default_data().unwrap();
    let list = db.list_parent_classifications();
    let rows = classification_entries(&list, list[0].id);
    assert_eq!(rows.len(), 1);
    assert!(rows[0].selected);
    assert_eq!(rows[0].name, "常用");
}

#[test]
fn native_neutral_answers() {
    assert_eq!(get_file_icon("/x"), None);
    assert!(get_shortcut_file_info("/x.lnk").is_none());
    assert_eq!(search_path("cmd"), None);
    assert!(open_path("/x").is_ok());
    assert!(!is_fullscreen());
    open_file_location("/x");
    assert_eq!(u16_to_string(&[72, 105, 0, 88]), "Hi");
    assert_eq!(u16_to_string(&[0x4F60, 0x597D]), "你好");
    assert_eq!(u16_to_string(&[0xD800, 65]), "\u{FFFD}A");
}
