use dawn_launcher::db::{Database, DbError, Setting};
use dawn_launcher::models::{Classification, ClassificationData, Item, ItemData};
use dawn_launcher::ordering::ItemOrder;

fn data() -> ItemData {
    ItemData {
        start_location: None,
        target: None,
        params: None,
        run_as_admin: false,
        icon: None,
        html_icon: None,
        remark: None,
        icon_background_color: false,
        fixed_icon: false,
        open_number: 0,
        last_open: 0,
        quick_search_last_open: 0,
        multi_items_time_interval: 0,
    }
}

fn item(cid: i64, name: &str, order: i64, open_number: i64, target: Option<&str>) -> Item {
    let mut d = data();
    d.open_number = open_number;
    d.target = target.map(|t| t.to_string());
    Item {
        id: 0,
        classification_id: cid,
        name: name.to_string(),
        kind: 0,
        data: d,
        shortcut_key: None,
        global_shortcut_key: false,
        order,
    }
}

fn names(items: &[Item]) -> Vec<String> {
    items.iter().map(|i| i.name.clone()).collect()
}

fn store_with_items() -> (Database, i64) {
    let mut db = Database::new();
    db.ensure_default_data().unwrap();
    let cid = db.list_parent_classifications()[0].id;
    db.insert_item(&item(cid, "Zeta", 3, 5, Some("/z"))).unwrap();
    db.insert_item(&item(cid, "alpha", 1, 9, Some("/a"))).unwrap();
    db.insert_item(&item(cid, "Beta", 2, 5, Some("/b"))).unwrap();
    (db, cid)
}

#[test]
fn default_data_created_once() {
    let mut db = Database::new();
    db.ensure_default_data().unwrap();
    db.ensure_default_data().unwrap();
    let parents = db.list_parent_classifications();
    assert_eq!(parents.len(), 1);
    assert_eq!(parents[0].name, "常用");
    assert_eq!(parents[0].order, 1);
    assert_eq!(parents[0].kind, 0);
    assert_eq!(parents[0].data.item_sort, "default");
    assert_eq!(parents[0].data.item_layout, "default");
    assert_eq!(parents[0].data.item_show_only, "default");
    assert!(parents[0].is_parent());
}

#[test]
fn insert_assigns_increasing_ids() {
    let (db, cid) = store_with_items();
    let ids: Vec<i64> = db.item_rows().iter().map(|i| i.id).collect();
    assert_eq!(ids, vec![1, 2, 3]);
    assert_eq!(db.next_item_id(), 4);
    assert_eq!(db.max_item_order(cid), 3);
    assert_eq!(db.max_item_order(cid + 100), 0);
}

#[test]
fn list_items_default_order() {
    let (db, cid) = store_with_items();
    assert_eq!(names(&db.list_items(cid)), vec!["alpha", "Beta", "Zeta"]);
}

#[test]
fn list_items_follow_sort_setting() {
    let (mut db, cid) = store_with_items();
    db.set_classification_item_sort(cid, "initial").unwrap();
    assert_eq!(db.item_listing_order(cid), ItemOrder::ByName);
    // binary collation: upper case before lower case
    assert_eq!(names(&db.list_items(cid)), vec!["Beta", "Zeta", "alpha"]);
    db.set_classification_item_sort(cid, "openNumber").unwrap();
    assert_eq!(names(&db.list_items(cid)), vec!["alpha", "Zeta", "Beta"]);
    db.set_classification_item_sort(cid, "lastOpen").unwrap();
    db.record_item_open(3, 1000);
    assert_eq!(names(&db.list_items(cid))[0], "Beta");
    db.set_classification_item_sort(cid, "whatever").unwrap();
    assert_eq!(names(&db.list_items(cid)), vec!["alpha", "Beta", "Zeta"]);
    assert_eq!(db.set_classification_item_sort(999, "initial"), Err(DbError::NotFound));
}

#[test]
fn list_all_items_by_name() {
    let (db, _) = store_with_items();
    assert_eq!(names(&db.list_all_items()), vec!["Beta", "Zeta", "alpha"]);
}

#[test]
fn search_is_case_insensitive_substring() {
    let (db, _) = store_with_items();
    assert_eq!(names(&db.search_items("  ET ")), vec!["Beta", "Zeta"]);
    assert_eq!(names(&db.search_items("a")), vec!["alpha", "Beta", "Zeta"]);
    assert!(db.search_items("   ").is_empty());
    assert!(db.search_items("xyz").is_empty());
}

#[test]
fn search_wildcards_follow_like() {
    let (db, _) = store_with_items();
    assert_eq!(names(&db.search_items("b_ta")), vec!["Beta"]);
    assert_eq!(names(&db.search_items("z%a")), vec!["Zeta"]);
}

#[test]
fn record_open_counts_and_stamps() {
    let (mut db, cid) = store_with_items();
    db.record_item_open(2, 1234);
    let it = db.list_items(cid).into_iter().find(|i| i.id == 2).unwrap();
    assert_eq!(it.data.open_number, 10);
    assert_eq!(it.data.last_open, 1234);
    db.record_item_open(77, 1);
    assert_eq!(db.item_rows().len(), 3);
}

#[test]
fn rename_and_targets() {
    let (mut db, cid) = store_with_items();
    db.rename_item(1, "Omega");
    assert!(names(&db.list_items(cid)).contains(&"Omega".to_string()));
    assert_eq!(db.get_item_target(1), Some("/z".to_string()));
    assert_eq!(db.get_item_target(99), None);
    db.update_item_icon(1, "data:image/png;base64,AA==").unwrap();
    assert_eq!(db.item_rows()[0].data.icon.as_deref(), Some("data:image/png;base64,AA=="));
    assert_eq!(db.update_item_icon(99, "x"), Err(DbError::NotFound));
}

#[test]
fn delete_item_and_batch_delete() {
    let (mut db, cid) = store_with_items();
    db.delete_item(2);
    assert_eq!(names(&db.list_items(cid)), vec!["Beta", "Zeta"]);
    db.batch_delete_items(&[1, 3, 42]);
    assert!(db.list_items(cid).is_empty());
    db.batch_delete_items(&[]);
    assert_eq!(db.next_item_id(), 4);
}

#[test]
fn delete_classification_removes_its_items() {
    let (mut db, cid) = store_with_items();
    let other = db.insert_parent_classification("Work").unwrap();
    db.insert_item(&item(other, "kept", 1, 0, None)).unwrap();
    db.delete_classification(cid);
    assert!(db.list_items(cid).is_empty());
    assert_eq!(names(&db.list_items(other)), vec!["kept"]);
    assert_eq!(db.list_parent_classifications().len(), 1);
}

#[test]
fn parent_and_child_classifications() {
    let mut db = Database::new();
    db.ensure_default_data().unwrap();
    let a = db.insert_parent_classification("A").unwrap();
    assert_eq!(db.max_parent_classification_order(), 2);
    let c1 = db.insert_child_classification(a, "c1").unwrap();
    let c2 = db.insert_child_classification(a, "c2").unwrap();
    assert_eq!(db.max_child_classification_order(a), 2);
    let kids = db.list_child_classifications(a);
    assert_eq!(kids.iter().map(|c| c.id).collect::<Vec<_>>(), vec![c1, c2]);
    assert_eq!(kids[0].parent_id, Some(a));
    assert!(!kids[0].is_parent());
    assert_eq!(db.list_all_classifications().len(), 4);
    db.rename_classification(c1, "renamed");
    assert_eq!(db.list_child_classifications(a)[0].name, "renamed");
}

#[test]
fn lock_round_trip() {
    let (mut db, cid) = store_with_items();
    assert!(!db.is_classification_locked(cid));
    db.set_classification_locked(cid, true).unwrap();
    assert!(db.is_classification_locked(cid));
    assert!(!db.is_classification_locked(555));
    assert_eq!(db.set_classification_locked(555, true), Err(DbError::NotFound));
}

#[test]
fn batch_move_numbers_after_target() {
    let (mut db, cid) = store_with_items();
    let other = db.insert_parent_classification("Other").unwrap();
    db.insert_item(&item(other, "x", 10, 0, None)).unwrap();
    db.batch_move_items(&[3, 99, 1], other);
    let moved = db.list_items(other);
    assert_eq!(names(&moved), vec!["x", "Beta", "Zeta"]);
    assert_eq!(moved.iter().map(|i| i.order).collect::<Vec<_>>(), vec![10, 11, 13]);
    assert_eq!(names(&db.list_items(cid)), vec!["alpha"]);
}

#[test]
fn batch_copy_keeps_sources() {
    let (mut db, cid) = store_with_items();
    let other = db.insert_parent_classification("Other").unwrap();
    db.batch_copy_items(&[2, 50, 3], other).unwrap();
    assert_eq!(names(&db.list_items(cid)), vec!["alpha", "Beta", "Zeta"]);
    let copies = db.list_items(other);
    assert_eq!(names(&copies), vec!["alpha", "Beta"]);
    assert_eq!(copies.iter().map(|i| i.order).collect::<Vec<_>>(), vec![1, 3]);
    assert_eq!(copies.iter().map(|i| i.id).collect::<Vec<_>>(), vec![4, 5]);
}

#[test]
fn settings_round_trips() {
    let mut db = Database::new();
    assert_eq!(db.get_setting("theme_mode", "light"), "light");
    db.set_setting("theme_mode", "dark");
    assert_eq!(db.get_setting("theme_mode", "light"), "dark");
    db.set_setting("theme_mode", "light");
    assert_eq!(db.get_setting("theme_mode", "x"), "light");
    assert_eq!(db.setting_rows().len(), 1);
    assert!(!db.get_setting_bool("auto_start", false));
    assert!(db.get_setting_bool("auto_start", true));
    db.set_setting_bool("auto_start", true);
    assert!(db.get_setting_bool("auto_start", false));
    assert_eq!(db.get_setting("auto_start", ""), "1");
    assert_eq!(db.get_setting_i64("item_columns", 8), 8);
    db.set_setting_i64("item_columns", -12);
    assert_eq!(db.get_setting("item_columns", ""), "-12");
    assert_eq!(db.get_setting_i64("item_columns", 8), -12);
    db.set_setting("item_columns", "oops");
    assert_eq!(db.get_setting_i64("item_columns", 8), 8);
}

#[test]
fn from_rows_checks_ids() {
    let s = |k: &str| Setting { key: k.to_string(), value: "v".to_string() };
    let mut a = item(1, "a", 1, 0, None);
    a.id = 5;
    let mut b = item(1, "b", 1, 0, None);
    b.id = 5;
    assert!(Database::from_rows(vec![], vec![a.clone(), b], vec![], 1, 10).is_none());
    assert!(Database::from_rows(vec![], vec![a.clone()], vec![], 1, 5).is_none());
    assert!(Database::from_rows(vec![], vec![], vec![s("k"), s("k")], 1, 1).is_none());
    assert!(Database::from_rows(vec![], vec![], vec![], 0, 1).is_none());
    let c = Classification {
        id: 3,
        parent_id: None,
        name: "c".to_string(),
        kind: 0,
        data: ClassificationData::default(),
        shortcut_key: None,
        global_shortcut_key: false,
        order: 1,
        child_list: vec![],
    };
    let db = Database::from_rows(vec![c], vec![a], vec![s("k")], 4, 6).unwrap();
    assert_eq!(db.next_item_id(), 6);
    assert_eq!(db.next_classification_id(), 4);
    assert_eq!(db.classification_rows()[0].id, 3);
}

#[test]
fn relative_and_absolute_conversions() {
    let mut db = Database::new();
    db.ensure_default_data().unwrap();
    let cid = db.list_parent_classifications()[0].id;
    db.insert_item(&item(cid, "app", 1, 0, Some("/opt/launcher/apps/tool.exe"))).unwrap();
    db.insert_item(&item(cid, "site", 2, 0, Some("https://example.com"))).unwrap();
    db.insert_item(&item(cid, "none", 3, 0, None)).unwrap();
    assert_eq!(db.batch_to_relative_paths(&[1, 2, 3], "/opt/launcher"), Ok(1));
    assert_eq!(db.get_item_target(1), Some("./apps/tool.exe".to_string()));
    assert_eq!(db.batch_to_relative_paths(&[1], "/opt/launcher"), Ok(0));
    assert_eq!(db.batch_to_absolute_paths(&[1, 2], "/nonexistent-base"), Ok(1));
    assert_eq!(db.get_item_target(1), Some("/nonexistent-base/./apps/tool.exe".to_string()));
    assert_eq!(db.batch_to_relative_paths(&[2, 77, 1], "/"), Err(DbError::NotFound));
    assert_eq!(db.batch_to_absolute_paths(&[77], "/"), Err(DbError::NotFound));
}

#[test]
fn classification_clone_is_deep() {
    let mut parent = Classification::default();
    parent.id = 1;
    parent.name = "P".to_string();
    let mut child = Classification::default();
    child.id = 2;
    child.parent_id = Some(1);
    let mut grandchild = Classification::default();
    grandchild.id = 3;
    grandchild.name = "G".to_string();
    child.child_list.push(grandchild);
    parent.child_list.push(child);
    let copy = parent.clone();
    assert_eq!(copy.name, "P");
    assert_eq!(copy.child_list[0].id, 2);
    assert_eq!(copy.child_list[0].parent_id, Some(1));
    assert_eq!(copy.child_list[0].child_list[0].name, "G");
    assert_eq!(Item::default().data.open_number, 0);
    assert!(ItemData::default().target.is_none());
    assert_eq!(ClassificationData::default().item_sort, "");
}
