use dawn_launcher::controller::{chosen_action, row_entry, Controller, Effect, Event, Pending};
use dawn_launcher::db::Database;
use dawn_launcher::menus::{menu_command, menu_entries, menu_source, MenuCommand, MenuKind};

fn s(t: &str) -> String {
    t.to_string()
}

fn started() -> (Controller, Database) {
    let mut db = Database::new();
    let (c, e) = Controller::start(&mut db, "/data").unwrap();
    assert_eq!(
        e,
        vec![
            Effect::ShowClassifications(1),
            Effect::ShowItems,
            Effect::Status(s("共 1 个分类，0 个项目")),
            Effect::Theme(s("light")),
            Effect::Topmost(false),
        ]
    );
    (c, db)
}

fn menu(c: &mut Controller, db: &mut Database, source: &str, action: &str) -> Vec<Effect> {
    c.handle(db, Event::MenuSelected(s(source), s(action)), 1000)
}

fn row_names(c: &Controller) -> Vec<String> {
    c.rows().iter().map(|r| r.item.name.clone()).collect()
}

#[test]
fn start_shows_first_classification() {
    let (c, db) = started();
    assert_eq!(c.current_classification_id(), 1);
    assert!(!c.batch_mode());
    assert_eq!(c.pending(), Pending::Nothing);
    assert!(c.rows().is_empty());
    assert_eq!(db.list_parent_classifications()[0].name, "常用");
}

#[test]
fn adding_items_by_drop_and_dialog() {
    let (mut c, mut db) = started();
    let e = c.handle(&mut db, Event::ItemDropped(s("https://a.example")), 1);
    assert_eq!(e, vec![Effect::ShowItems, Effect::Status(s("共 1 个项目"))]);
    assert_eq!(c.handle(&mut db, Event::AddItemClicked, 1), vec![Effect::AskFile]);
    assert_eq!(c.pending(), Pending::ItemFile(1));
    let e = c.handle(&mut db, Event::FileChosen(Some(s("\"https://b.example\""))), 1);
    assert_eq!(e, vec![Effect::ShowItems, Effect::Status(s("共 2 个项目"))]);
    assert_eq!(c.pending(), Pending::Nothing);
    assert_eq!(row_names(&c), vec!["https://a.example", "https://b.example"]);
    let orders: Vec<i64> = c.rows().iter().map(|r| r.item.order).collect();
    assert_eq!(orders, vec![1, 2]);
    // a cancelled file dialog adds nothing
    c.handle(&mut db, Event::AddItemClicked, 1);
    assert!(c.handle(&mut db, Event::FileChosen(None), 1).is_empty());
    assert_eq!(db.list_items(1).len(), 2);
}

#[test]
fn clicking_opens_and_records() {
    let (mut c, mut db) = started();
    c.handle(&mut db, Event::ItemDropped(s("https://a.example")), 1);
    let id = c.rows()[0].item.id as i32;
    assert_eq!(
        c.handle(&mut db, Event::ItemClicked(id), 4242),
        vec![Effect::Open(s("https://a.example"))]
    );
    let it = &db.list_items(1)[0];
    assert_eq!(it.data.open_number, 1);
    assert_eq!(it.data.last_open, 4242);
    c.handle(&mut db, Event::ItemDoubleClicked(id), 5000);
    assert_eq!(db.list_items(1)[0].data.open_number, 2);
    // an item that is not shown is not opened
    assert!(c.handle(&mut db, Event::ItemClicked(77), 6000).is_empty());
    assert_eq!(db.list_items(1)[0].data.last_open, 5000);
}

#[test]
fn missing_target_still_counts_as_opened() {
    let (mut c, mut db) = started();
    c.handle(&mut db, Event::ItemDropped(s("/definitely/not/here.exe")), 1);
    let id = c.rows()[0].item.id as i32;
    assert!(c.handle(&mut db, Event::ItemClicked(id), 10).is_empty());
    assert_eq!(db.list_items(1)[0].data.open_number, 1);
    let entry = row_entry(&c.rows()[0]);
    assert!(entry.invalid);
    assert_eq!(entry.name, "here");
}

#[test]
fn classification_click_lists_its_items() {
    let (mut c, mut db) = started();
    c.handle(&mut db, Event::ItemDropped(s("https://a.example")), 1);
    let e = c.handle(&mut db, Event::ClassificationClicked(5), 1);
    assert_eq!(e, vec![Effect::ShowClassifications(5), Effect::ShowItems, Effect::Status(s("0 项"))]);
    assert_eq!(c.current_classification_id(), 5);
    let e = c.handle(&mut db, Event::ClassificationClicked(1), 1);
    assert_eq!(e[2], Effect::Status(s("1 项")));
}

#[test]
fn right_clicks_open_menus() {
    let (mut c, mut db) = started();
    assert_eq!(c.handle(&mut db, Event::ItemRightClicked(3), 1), vec![Effect::ShowMenu(MenuKind::Item)]);
    assert_eq!(
        c.handle(&mut db, Event::ClassificationRightClicked(1), 1),
        vec![Effect::ShowMenu(MenuKind::ClassificationItem(false))]
    );
    assert_eq!(c.handle(&mut db, Event::ItemAreaRightClicked, 1), vec![Effect::ShowMenu(MenuKind::ItemArea)]);
    assert_eq!(
        c.handle(&mut db, Event::ClassificationAreaRightClicked, 1),
        vec![Effect::ShowMenu(MenuKind::ClassificationArea)]
    );
    menu(&mut c, &mut db, "item-area", "batch-mode");
    assert_eq!(c.handle(&mut db, Event::ItemAreaRightClicked, 1), vec![Effect::ShowMenu(MenuKind::Batch)]);
}

#[test]
fn renaming_and_deleting_an_item() {
    let (mut c, mut db) = started();
    c.handle(&mut db, Event::ItemDropped(s("https://a.example")), 1);
    let id = c.rows()[0].item.id;
    c.handle(&mut db, Event::ItemRightClicked(id as i32), 1);
    assert_eq!(
        menu(&mut c, &mut db, "item", "rename"),
        vec![Effect::AskText(s("重命名项目"), s("请输入新名称"))]
    );
    assert_eq!(c.handle(&mut db, Event::TextEntered(Some(s("Alpha"))), 1), vec![Effect::ShowItems]);
    assert_eq!(row_names(&c), vec!["Alpha"]);
    assert_eq!(
        menu(&mut c, &mut db, "item", "copy-path"),
        vec![Effect::CopyText(s("https://a.example"))]
    );
    assert_eq!(menu(&mut c, &mut db, "item", "open-location"), vec![Effect::OpenLocation(s("https://a.example"))]);
    assert_eq!(
        menu(&mut c, &mut db, "item", "refresh-icon"),
        vec![Effect::AskIcons(vec![s("https://a.example")])]
    );
    assert!(c.handle(&mut db, Event::IconsFound(vec![None]), 1).is_empty());
    menu(&mut c, &mut db, "item", "refresh-icon");
    assert_eq!(
        c.handle(&mut db, Event::IconsFound(vec![Some(s("data:image/png;base64,AAAA"))]), 1),
        vec![Effect::ShowItems]
    );
    assert_eq!(db.list_items(1)[0].data.icon.as_deref(), Some("data:image/png;base64,AAAA"));
    assert_eq!(c.rows()[0].item.data.icon.as_deref(), Some("data:image/png;base64,AAAA"));
    assert_eq!(
        menu(&mut c, &mut db, "item", "delete"),
        vec![Effect::AskConfirm(s("删除项目"), s("确定删除该项目吗？"))]
    );
    assert!(c.handle(&mut db, Event::Confirmed(false), 1).is_empty());
    assert_eq!(db.list_items(1).len(), 1);
    menu(&mut c, &mut db, "item", "delete");
    assert_eq!(
        c.handle(&mut db, Event::Confirmed(true), 1),
        vec![Effect::ShowItems, Effect::Status(s("共 0 个项目"))]
    );
    assert!(db.list_items(1).is_empty());
}

#[test]
fn path_conversions_report_counts() {
    let (mut c, mut db) = started();
    c.handle(&mut db, Event::ItemDropped(s("/data/apps/tool.exe")), 1);
    let id = c.rows()[0].item.id;
    c.handle(&mut db, Event::ItemRightClicked(id as i32), 1);
    assert_eq!(
        menu(&mut c, &mut db, "item", "to-relative"),
        vec![Effect::Info(s("完成"), s("已转换 1 个项目")), Effect::ShowItems]
    );
    assert_eq!(db.get_item_target(id).unwrap(), "./apps/tool.exe");
    c.handle(&mut db, Event::ItemRightClicked(99), 1);
    assert_eq!(
        menu(&mut c, &mut db, "item", "to-relative"),
        vec![Effect::Error(s("错误"), s("转换失败: Query returned no rows")), Effect::ShowItems]
    );
}

#[test]
fn lock_toggles_with_messages() {
    let (mut c, mut db) = started();
    assert_eq!(
        menu(&mut c, &mut db, "item-area", "lock-item-order"),
        vec![Effect::Info(s("锁定状态"), s("已锁定项目顺序"))]
    );
    assert!(db.is_classification_locked(1));
    assert_eq!(
        menu(&mut c, &mut db, "item-area", "lock-item-order"),
        vec![Effect::Info(s("锁定状态"), s("已解锁项目顺序"))]
    );
    assert!(!db.is_classification_locked(1));
    assert_eq!(
        menu(&mut c, &mut db, "item-area", "item-settings"),
        vec![Effect::Info(s("项目设置"), s("项目设置弹窗（待实现）"))]
    );
    assert_eq!(
        menu(&mut c, &mut db, "classification-area", "lock-order"),
        vec![Effect::Info(s("锁定分类顺序"), s("分类顺序锁定功能（待完善）"))]
    );
    assert!(menu(&mut c, &mut db, "item-area", "no-such-entry").is_empty());
}

#[test]
fn classifications_from_menus() {
    let (mut c, mut db) = started();
    assert_eq!(
        menu(&mut c, &mut db, "classification-area", "new-classification"),
        vec![Effect::AskText(s("新建分类"), s("请输入分类名称"))]
    );
    assert_eq!(
        c.handle(&mut db, Event::TextEntered(Some(s("Work"))), 1),
        vec![Effect::ShowClassifications(2), Effect::ShowItems, Effect::Status(s("0 个项目"))]
    );
    assert_eq!(db.list_parent_classifications()[1].order, 2);
    assert_eq!(
        c.handle(&mut db, Event::ClassificationRightClicked(2), 1),
        vec![Effect::ShowMenu(MenuKind::ClassificationItem(false))]
    );
    menu(&mut c, &mut db, "classification-item", "rename");
    assert_eq!(c.handle(&mut db, Event::TextEntered(Some(s("Job"))), 1), vec![Effect::ShowClassifications(2)]);
    assert_eq!(db.list_parent_classifications()[1].name, "Job");
    menu(&mut c, &mut db, "classification-item", "add-child");
    assert_eq!(
        c.handle(&mut db, Event::TextEntered(Some(s("Sub"))), 1),
        vec![Effect::Info(s("成功"), s("子分类已创建"))]
    );
    assert_eq!(db.list_child_classifications(2)[0].name, "Sub");
    assert_eq!(
        c.handle(&mut db, Event::ClassificationRightClicked(2), 1),
        vec![Effect::ShowMenu(MenuKind::ClassificationItem(true))]
    );
    c.handle(&mut db, Event::ClassificationClicked(2), 1);
    c.handle(&mut db, Event::ItemDropped(s("https://w.example")), 1);
    assert_eq!(
        menu(&mut c, &mut db, "classification-item", "delete"),
        vec![Effect::AskConfirm(s("删除分类"), s("删除分类将同时删除其下所有项目，确定继续吗？"))]
    );
    assert_eq!(
        c.handle(&mut db, Event::Confirmed(true), 1),
        vec![Effect::ShowClassifications(1), Effect::ShowItems, Effect::Status(s("共 1 个分类，0 个项目"))]
    );
    assert!(db.list_all_items().is_empty());
}

#[test]
fn batch_mode_select_delete_and_move() {
    let (mut c, mut db) = started();
    c.handle(&mut db, Event::ItemDropped(s("https://a.example")), 1);
    c.handle(&mut db, Event::ItemDropped(s("https://b.example")), 1);
    c.handle(&mut db, Event::AddClassificationClicked, 1);
    c.handle(&mut db, Event::TextEntered(Some(s("Other"))), 1);
    c.handle(&mut db, Event::ClassificationClicked(1), 1);
    assert_eq!(
        menu(&mut c, &mut db, "item-area", "batch-mode"),
        vec![Effect::BatchMode(true), Effect::HideMenu]
    );
    assert_eq!(
        menu(&mut c, &mut db, "batch", "batch-delete"),
        vec![Effect::Info(s("提示"), s("请先选择项目"))]
    );
    let first = c.rows()[0].item.id as i32;
    assert_eq!(c.handle(&mut db, Event::ItemClicked(first), 1), vec![Effect::ShowItems]);
    assert!(c.rows()[0].selected);
    assert_eq!(db.list_items(1)[0].data.open_number, 0);
    c.handle(&mut db, Event::ItemClicked(first), 1);
    assert!(!c.rows()[0].selected);
    assert_eq!(menu(&mut c, &mut db, "batch", "select-all"), vec![Effect::ShowItems]);
    assert!(c.rows().iter().all(|r| r.selected));
    assert_eq!(
        menu(&mut c, &mut db, "batch", "batch-move"),
        vec![Effect::AskText(s("选择目标分类"), s("请输入目标分类ID:\n[1] 常用\n[2] Other"))]
    );
    assert_eq!(
        c.handle(&mut db, Event::TextEntered(Some(s(" 2 "))), 1),
        vec![Effect::ShowItems, Effect::BatchMode(false), Effect::Info(s("完成"), s("batch-move 操作成功"))]
    );
    assert!(!c.batch_mode());
    assert!(db.list_items(1).is_empty());
    assert_eq!(db.list_items(2).len(), 2);
    c.handle(&mut db, Event::ClassificationClicked(2), 1);
    menu(&mut c, &mut db, "item-area", "batch-mode");
    menu(&mut c, &mut db, "batch", "select-all");
    assert_eq!(
        menu(&mut c, &mut db, "batch", "batch-delete"),
        vec![Effect::AskConfirm(s("批量删除"), s("确定删除选中的 2 个项目吗？"))]
    );
    assert_eq!(c.handle(&mut db, Event::Confirmed(true), 1), vec![Effect::ShowItems, Effect::BatchMode(false)]);
    assert!(db.list_all_items().is_empty());
}

#[test]
fn batch_copy_and_other_batch_entries() {
    let (mut c, mut db) = started();
    c.handle(&mut db, Event::ItemDropped(s("https://a.example")), 1);
    menu(&mut c, &mut db, "item-area", "batch-mode");
    menu(&mut c, &mut db, "batch", "select-all");
    assert_eq!(
        menu(&mut c, &mut db, "batch", "batch-refresh-icon"),
        vec![Effect::AskIcons(vec![s("https://a.example")])]
    );
    assert_eq!(
        c.handle(&mut db, Event::IconsFound(vec![Some(s("data:,x"))]), 1),
        vec![Effect::ShowItems, Effect::Info(s("完成"), s("已刷新 1 个项目图标"))]
    );
    assert_eq!(db.list_items(1)[0].data.icon.as_deref(), Some("data:,x"));
    menu(&mut c, &mut db, "batch", "select-all");
    assert_eq!(
        menu(&mut c, &mut db, "batch", "batch-rel-path"),
        vec![Effect::Info(s("完成"), s("已转换 0 个项目为相对路径"))]
    );
    assert_eq!(
        menu(&mut c, &mut db, "batch", "batch-abs-path"),
        vec![Effect::Info(s("完成"), s("已转换 0 个项目为绝对路径"))]
    );
    menu(&mut c, &mut db, "batch", "batch-copy");
    // an answer that is not a number does nothing
    assert!(c.handle(&mut db, Event::TextEntered(Some(s("abc"))), 1).is_empty());
    menu(&mut c, &mut db, "batch", "batch-copy");
    assert_eq!(
        c.handle(&mut db, Event::TextEntered(Some(s("1"))), 1),
        vec![Effect::ShowItems, Effect::BatchMode(false), Effect::Info(s("完成"), s("batch-copy 操作成功"))]
    );
    let orders: Vec<i64> = db.list_items(1).iter().map(|i| i.order).collect();
    assert_eq!(orders, vec![1, 2]);
    menu(&mut c, &mut db, "item-area", "batch-mode");
    assert_eq!(
        menu(&mut c, &mut db, "batch", "batch-cancel"),
        vec![Effect::BatchMode(false), Effect::ShowItems]
    );
    assert!(!c.batch_mode());
}

#[test]
fn settings_round_trip() {
    let (mut c, mut db) = started();
    assert_eq!(
        c.handle(&mut db, Event::SettingsClicked, 1),
        vec![Effect::ShowSettings(s("light"), false, false, 8)]
    );
    assert_eq!(c.handle(&mut db, Event::ThemeModeChanged(s("dark")), 1), vec![Effect::Theme(s("dark"))]);
    assert_eq!(c.handle(&mut db, Event::AutoStartChanged(true), 1), vec![Effect::AutoStart(true)]);
    assert_eq!(c.handle(&mut db, Event::WindowTopmostChanged(true), 1), vec![Effect::Topmost(true)]);
    assert_eq!(c.handle(&mut db, Event::ItemColumnsChanged(6), 1), vec![Effect::Columns(6)]);
    assert_eq!(
        c.handle(&mut db, Event::SettingsClicked, 1),
        vec![Effect::ShowSettings(s("dark"), true, true, 6)]
    );
    assert_eq!(c.handle(&mut db, Event::WindowClosed, 1), vec![Effect::Exit]);
    let mut db2 = Database::from_rows(
        db.classification_rows().iter().map(|c| c.clone()).collect(),
        db.item_rows().iter().map(|i| i.clone()).collect(),
        db.setting_rows()
            .iter()
            .map(|x| dawn_launcher::db::Setting { key: x.key.clone(), value: x.value.clone() })
            .collect(),
        db.next_classification_id(),
        db.next_item_id(),
    )
    .unwrap();
    let (_, e) = Controller::start(&mut db2, "/data").unwrap();
    assert_eq!(e[3], Effect::Theme(s("dark")));
    assert_eq!(e[4], Effect::Topmost(true));
}

#[test]
fn menus_offer_handled_entries() {
    for k in [
        MenuKind::Item,
        MenuKind::ClassificationItem(false),
        MenuKind::ClassificationItem(true),
        MenuKind::ClassificationArea,
        MenuKind::ItemArea,
        MenuKind::Batch,
    ] {
        let src = menu_source(k);
        for e in menu_entries(k) {
            assert!(e.enabled);
            if e.separator {
                assert!(e.id.is_empty() && e.label.is_empty());
            } else {
                assert_ne!(menu_command(src, &e.id), MenuCommand::Unknown, "{} {}", src, e.id);
            }
        }
    }
    assert_eq!(menu_entries(MenuKind::Item).len(), 11);
    let ids = |k| menu_entries(k).into_iter().map(|e| e.id).collect::<Vec<String>>();
    assert_eq!(ids(MenuKind::ClassificationItem(true)), vec!["rename", "add-child", "", "delete"]);
    assert_eq!(ids(MenuKind::ClassificationItem(false)), vec!["rename", "", "delete"]);
    assert_eq!(menu_entries(MenuKind::Batch).len(), 13);
    assert_eq!(menu_entries(MenuKind::Batch)[2].label, "批量移动到");
    assert!(menu_entries(MenuKind::Batch)[2].has_submenu);
    assert_eq!(menu_command("item", "open"), MenuCommand::OpenItem);
    assert_eq!(menu_command("batch", "open"), MenuCommand::Unknown);
    assert_eq!(menu_command("nowhere", "open"), MenuCommand::Unknown);
}

#[test]
fn text_dialog_answers_are_trimmed() {
    assert_eq!(dawn_launcher::controller::text_answer("  Work \n"), Some(s("Work")));
    assert_eq!(dawn_launcher::controller::text_answer(" \t\n"), None);
    assert_eq!(dawn_launcher::controller::text_answer(""), None);
}

#[test]
fn cancelled_dialogs_change_nothing() {
    let (mut c, mut db) = started();
    assert_eq!(
        c.handle(&mut db, Event::AddClassificationClicked, 1),
        vec![Effect::AskText(s("新建分类"), s("请输入分类名称"))]
    );
    assert_eq!(c.pending(), Pending::ClassificationName);
    assert!(c.handle(&mut db, Event::TextEntered(None), 1).is_empty());
    assert_eq!(c.pending(), Pending::Nothing);
    assert_eq!(db.list_parent_classifications().len(), 1);
    // an answer with no dialog open is ignored
    assert!(c.handle(&mut db, Event::Confirmed(true), 1).is_empty());
    assert!(c.handle(&mut db, Event::TextEntered(Some(s("x"))), 1).is_empty());
    assert_eq!(db.list_parent_classifications().len(), 1);
}

#[test]
fn choice_dialog_picks_an_action() {
    let none: Vec<String> = vec![];
    assert_eq!(chosen_action(&none, Some("1")), None);
    let single = vec![s("open")];
    assert_eq!(chosen_action(&single, None), Some(s("open")));
    let many = vec![s("open"), s("rename"), s("delete")];
    assert_eq!(chosen_action(&many, Some(" 2\n")), Some(s("rename")));
    assert_eq!(chosen_action(&many, Some("3")), Some(s("delete")));
    assert_eq!(chosen_action(&many, Some("4")), None);
    assert_eq!(chosen_action(&many, Some("0")), None);
    assert_eq!(chosen_action(&many, Some("")), None);
    assert_eq!(chosen_action(&many, Some("x")), None);
    assert_eq!(chosen_action(&many, None), None);
}

#[test]
fn dropped_files_ask_for_their_icon() {
    let (mut c, mut db) = started();
    let e = c.handle(&mut db, Event::ItemDropped(s("\"/home/u/tool.exe\"")), 1);
    assert_eq!(
        e,
        vec![Effect::ShowItems, Effect::Status(s("共 1 个项目")), Effect::AskIcons(vec![s("/home/u/tool.exe")])]
    );
    assert_eq!(c.pending(), Pending::Icons(false, 1));
    assert_eq!(c.handle(&mut db, Event::IconsFound(vec![Some(s("data:,i"))]), 1), vec![Effect::ShowItems]);
    assert_eq!(db.list_items(1)[0].data.icon.as_deref(), Some("data:,i"));
    assert_eq!(c.pending(), Pending::Nothing);
    // a web address asks for no icon
    let e = c.handle(&mut db, Event::ItemDropped(s("https://b.example")), 1);
    assert_eq!(e, vec![Effect::ShowItems, Effect::Status(s("共 2 个项目"))]);
}
