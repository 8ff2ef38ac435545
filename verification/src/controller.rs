//! The launcher window's behaviour apart from drawing: what each click,
//! menu choice and dialog answer does to the store, and what the window is
//! told to show or ask next. The window runs the loop: it hands each event
//! to [`Controller::handle`] and carries out the effects that come back;
//! a dialog's answer comes back as an event of its own.

use vstd::prelude::*;
use crate::db::{
    Database, DbError, DbState, absolute_prefix, classification_locked, copied_items,
    db_error_text, find_classification, find_item, item_target, items_of, listing_order,
    child_classifications, max_classification_order_of, max_item_order_of, moved_items, opened_item, parent_classifications,
    relative_prefix, renamed_classification, renamed_item, setting_flag, setting_number,
    setting_or, text_one, text_zero, with_classification_locked, with_default_data,
    with_item_icon, with_new_classification, with_new_item, with_setting, without_classification,
    without_items,
};
use crate::decimal::{decimal_seq, format_count, format_i64, parse_i64, parse_i64_seq, parse_index_seq, parse_index_upto};
use crate::launch::{
    ItemEntry, build_item_from_path, invalid_spec, item_entry_checked, item_for_path, item_icon_bytes,
    icon_bytes_spec, open_item, open_target_spec,
};
use crate::menus::{MenuCommand, MenuKind, menu_command, menu_command_spec};
use crate::models::{Classification, ClassificationView, Item, ItemView, ITEM_KIND_URL, classification_views, clone_opt_string, item_views, opt_text};
use crate::ordering::{is_sorted_classification_listing, is_sorted_listing};
use crate::paths::outcomes_ok;
use crate::text::{str_chars, string_from_chars, trim_chars, trim_seq};

verus! {

broadcast use vstd::string::group_string_axioms;

// ------------------------------------------------------------------ values

/// A row of the item list as the window shows it: the item, whether it is
/// selected (batch mode), and whether its target is checked on disk to
/// mark it invalid.
#[derive(Debug)]
pub struct ShownItem {
    pub item: Item,
    pub selected: bool,
    pub checked: bool,
}

impl View for ShownItem {
    type V = (ItemView, bool, bool);

    open spec fn view(&self) -> (ItemView, bool, bool) {
        (self.item@, self.selected, self.checked)
    }
}

/// What a dialog that is open was opened for.
#[derive(Clone, Copy, Debug, PartialEq, Eq, Structural)]
pub enum Pending {
    Nothing,
    /// A file to add to the classification with this id.
    ItemFile(i64),
    /// The name of a new top-level classification.
    ClassificationName,
    /// The new name of the classification with this id.
    RenameClassification(i64),
    /// The name of a new child of the classification with this id.
    ChildName(i64),
    /// Whether to delete the classification with this id.
    DeleteClassification(i64),
    /// The new name of an item (its id, then the classification shown).
    RenameItem(i64, i64),
    /// Whether to delete an item (its id, then the classification shown).
    DeleteItem(i64, i64),
    /// Whether to delete the selected items (the classification shown).
    BatchDelete(i64),
    /// The classification to move (`false`) or copy (`true`) the selected
    /// items to (then the classification shown).
    BatchTarget(bool, i64),
    /// The icons of the items in the pending ids, asked for by a batch
    /// (`true`) or a single refresh (then the classification shown).
    Icons(bool, i64),
}

/// What happened in the window.
#[derive(Debug)]
pub enum Event {
    ClassificationClicked(i32),
    ItemClicked(i32),
    ItemDoubleClicked(i32),
    ItemRightClicked(i32),
    ClassificationRightClicked(i32),
    ItemAreaRightClicked,
    ClassificationAreaRightClicked,
    AddItemClicked,
    AddClassificationClicked,
    /// A file or folder was dropped on the window.
    ItemDropped(String),
    SettingsClicked,
    ThemeModeChanged(String),
    AutoStartChanged(bool),
    WindowTopmostChanged(bool),
    ItemColumnsChanged(i32),
    WindowClosed,
    /// An entry of a context menu was chosen: the menu's source name and
    /// the entry's id.
    MenuSelected(String, String),
    /// The answer of a file dialog (`None`: cancelled).
    FileChosen(Option<String>),
    /// The answer of a text dialog (`None`: cancelled or empty).
    TextEntered(Option<String>),
    /// The answer of a yes/no dialog.
    Confirmed(bool),
    /// The icons (PNG data URLs) found for the paths asked for, in the
    /// order asked; `None` where there is none.
    IconsFound(Vec<Option<String>>),
}

pub enum EventView {
    ClassificationClicked(i32),
    ItemClicked(i32),
    ItemDoubleClicked(i32),
    ItemRightClicked(i32),
    ClassificationRightClicked(i32),
    ItemAreaRightClicked,
    ClassificationAreaRightClicked,
    AddItemClicked,
    AddClassificationClicked,
    ItemDropped(Seq<char>),
    SettingsClicked,
    ThemeModeChanged(Seq<char>),
    AutoStartChanged(bool),
    WindowTopmostChanged(bool),
    ItemColumnsChanged(i32),
    WindowClosed,
    MenuSelected(Seq<char>, Seq<char>),
    FileChosen(Option<Seq<char>>),
    TextEntered(Option<Seq<char>>),
    Confirmed(bool),
    IconsFound(Seq<Option<Seq<char>>>),
}

impl View for Event {
    type V = EventView;

    open spec fn view(&self) -> EventView {
        match self {
            Event::ClassificationClicked(i) => EventView::ClassificationClicked(*i),
            Event::ItemClicked(i) => EventView::ItemClicked(*i),
            Event::ItemDoubleClicked(i) => EventView::ItemDoubleClicked(*i),
            Event::ItemRightClicked(i) => EventView::ItemRightClicked(*i),
            Event::ClassificationRightClicked(i) => EventView::ClassificationRightClicked(*i),
            Event::ItemAreaRightClicked => EventView::ItemAreaRightClicked,
            Event::ClassificationAreaRightClicked => EventView::ClassificationAreaRightClicked,
            Event::AddItemClicked => EventView::AddItemClicked,
            Event::AddClassificationClicked => EventView::AddClassificationClicked,
            Event::ItemDropped(p) => EventView::ItemDropped(p@),
            Event::SettingsClicked => EventView::SettingsClicked,
            Event::ThemeModeChanged(m) => EventView::ThemeModeChanged(m@),
            Event::AutoStartChanged(b) => EventView::AutoStartChanged(*b),
            Event::WindowTopmostChanged(b) => EventView::WindowTopmostChanged(*b),
            Event::ItemColumnsChanged(n) => EventView::ItemColumnsChanged(*n),
            Event::WindowClosed => EventView::WindowClosed,
            Event::MenuSelected(s, a) => EventView::MenuSelected(s@, a@),
            Event::FileChosen(p) => EventView::FileChosen(opt_text(*p)),
            Event::TextEntered(t) => EventView::TextEntered(opt_text(*t)),
            Event::Confirmed(b) => EventView::Confirmed(*b),
            Event::IconsFound(v) => EventView::IconsFound(opt_texts_view(v@)),
        }
    }
}

/// What the window is to do.
#[derive(Debug, PartialEq)]
pub enum Effect {
    /// Show the top-level classifications, the one with this id selected.
    ShowClassifications(i64),
    /// Show the item rows the controller holds.
    ShowItems,
    /// Show this status line.
    Status(String),
    ShowMenu(MenuKind),
    HideMenu,
    /// Enter (`true`) or leave batch mode.
    BatchMode(bool),
    /// Ask for a file.
    AskFile,
    /// Ask for a line of text: title, prompt.
    AskText(String, String),
    /// Ask yes or no: title, message.
    AskConfirm(String, String),
    /// Tell something: title, message.
    Info(String, String),
    /// Report a failure: title, message.
    Error(String, String),
    /// Show this path in the file manager.
    OpenLocation(String),
    /// Put this text on the clipboard (no message follows on this
    /// platform).
    CopyText(String),
    /// Show the settings page: theme mode, start with the system, keep the
    /// window on top, item columns.
    ShowSettings(String, bool, bool, i64),
    /// Use this theme mode.
    Theme(String),
    /// Start (`true`) or stop starting with the system.
    AutoStart(bool),
    /// Keep (`true`) or stop keeping the window on top.
    Topmost(bool),
    /// Show this many item columns.
    Columns(i64),
    /// End the program.
    Exit,
    /// Hand this target (a path or web address) to the system to open.
    Open(String),
    /// Find the icons of these paths, in this order, and answer with
    /// [`Event::IconsFound`].
    AskIcons(Vec<String>),
}

pub enum EffectView {
    ShowClassifications(i64),
    ShowItems,
    Status(Seq<char>),
    ShowMenu(MenuKind),
    HideMenu,
    BatchMode(bool),
    AskFile,
    AskText(Seq<char>, Seq<char>),
    AskConfirm(Seq<char>, Seq<char>),
    Info(Seq<char>, Seq<char>),
    Error(Seq<char>, Seq<char>),
    OpenLocation(Seq<char>),
    CopyText(Seq<char>),
    ShowSettings(Seq<char>, bool, bool, i64),
    Theme(Seq<char>),
    AutoStart(bool),
    Topmost(bool),
    Columns(i64),
    Exit,
    Open(Seq<char>),
    AskIcons(Seq<Seq<char>>),
}

impl View for Effect {
    type V = EffectView;

    open spec fn view(&self) -> EffectView {
        match self {
            Effect::ShowClassifications(i) => EffectView::ShowClassifications(*i),
            Effect::ShowItems => EffectView::ShowItems,
            Effect::Status(s) => EffectView::Status(s@),
            Effect::ShowMenu(k) => EffectView::ShowMenu(*k),
            Effect::HideMenu => EffectView::HideMenu,
            Effect::BatchMode(b) => EffectView::BatchMode(*b),
            Effect::AskFile => EffectView::AskFile,
            Effect::AskText(t, p) => EffectView::AskText(t@, p@),
            Effect::AskConfirm(t, m) => EffectView::AskConfirm(t@, m@),
            Effect::Info(t, m) => EffectView::Info(t@, m@),
            Effect::Error(t, m) => EffectView::Error(t@, m@),
            Effect::OpenLocation(p) => EffectView::OpenLocation(p@),
            Effect::CopyText(p) => EffectView::CopyText(p@),
            Effect::ShowSettings(t, a, w, c) => EffectView::ShowSettings(t@, *a, *w, *c),
            Effect::Theme(t) => EffectView::Theme(t@),
            Effect::AutoStart(b) => EffectView::AutoStart(*b),
            Effect::Topmost(b) => EffectView::Topmost(*b),
            Effect::Columns(n) => EffectView::Columns(*n),
            Effect::Exit => EffectView::Exit,
            Effect::Open(t) => EffectView::Open(t@),
            Effect::AskIcons(v) => EffectView::AskIcons(texts_view(v@)),
        }
    }
}

pub open spec fn effects_view(v: Seq<Effect>) -> Seq<EffectView> {
    v.map_values(|e: Effect| e@)
}

pub open spec fn rows_view(v: Seq<ShownItem>) -> Seq<(ItemView, bool, bool)> {
    v.map_values(|r: ShownItem| r@)
}

/// The window state the controller keeps.
pub struct Controller {
    current: i64,
    batch: bool,
    shown: Vec<ShownItem>,
    right_item: i64,
    right_class: i64,
    pending: Pending,
    pending_ids: Vec<i64>,
    data_dir: String,
}

#[verifier::ext_equal]
pub struct ControllerView {
    /// The classification whose items are shown.
    pub current: i64,
    /// Batch mode is on.
    pub batch: bool,
    /// The item rows shown.
    pub shown: Seq<(ItemView, bool, bool)>,
    /// The item last right-clicked.
    pub right_item: i64,
    /// The classification last right-clicked.
    pub right_class: i64,
    /// What the open dialog is for.
    pub pending: Pending,
    /// The items a pending batch operation works on.
    pub pending_ids: Seq<i64>,
    /// The directory paths are made relative to and absolute from.
    pub data_dir: Seq<char>,
}

impl View for Controller {
    type V = ControllerView;

    closed spec fn view(&self) -> ControllerView {
        ControllerView {
            current: self.current,
            batch: self.batch,
            shown: rows_view(self.shown@),
            right_item: self.right_item,
            right_class: self.right_class,
            pending: self.pending,
            pending_ids: self.pending_ids@,
            data_dir: self.data_dir@,
        }
    }
}

// ------------------------------------------------------------------ rows

pub open spec fn rows_items(rows: Seq<(ItemView, bool, bool)>) -> Seq<ItemView> {
    rows.map_values(|r: (ItemView, bool, bool)| r.0)
}

/// `rows` list the items of classification `cid` as a fresh listing does:
/// in its listing order, none selected, targets checked.
pub open spec fn fresh_rows(s: DbState, cid: i64, rows: Seq<(ItemView, bool, bool)>) -> bool {
    &&& is_sorted_listing(listing_order(s, cid), rows_items(rows), items_of(s, cid))
    &&& forall|i: int| 0 <= i < rows.len() ==> !(#[trigger] rows[i]).1 && rows[i].2
}

/// `rows` list the items of classification `cid` all selected, targets not
/// checked.
pub open spec fn selected_rows(s: DbState, cid: i64, rows: Seq<(ItemView, bool, bool)>) -> bool {
    &&& is_sorted_listing(listing_order(s, cid), rows_items(rows), items_of(s, cid))
    &&& forall|i: int| 0 <= i < rows.len() ==> (#[trigger] rows[i]).1 && !rows[i].2
}

/// `rows` with the selection of the rows showing item `id` flipped.
pub open spec fn toggled(rows: Seq<(ItemView, bool, bool)>, id: i32) -> Seq<(ItemView, bool, bool)> {
    rows.map_values(
        |r: (ItemView, bool, bool)|
            if r.0.id as i32 == id {
                (r.0, !r.1, r.2)
            } else {
                r
            },
    )
}

/// The ids of the selected rows, top to bottom.
pub open spec fn selected_ids(rows: Seq<(ItemView, bool, bool)>) -> Seq<i64>
    decreases rows.len(),
{
    if rows.len() == 0 {
        Seq::empty()
    } else {
        let rest = selected_ids(rows.drop_last());
        if rows.last().1 {
            rest.push(rows.last().0.id)
        } else {
            rest
        }
    }
}

// ------------------------------------------------------------------ texts

pub open spec fn items_count_status(n: nat) -> Seq<char> {
    decimal_seq(n as int) + " 项"@
}

pub open spec fn total_items_status(n: nat) -> Seq<char> {
    "共 "@ + decimal_seq(n as int) + " 个项目"@
}

pub open spec fn totals_status(c: nat, n: nat) -> Seq<char> {
    "共 "@ + decimal_seq(c as int) + " 个分类，"@ + decimal_seq(n as int) + " 个项目"@
}

/// A line of the target list of a batch move or copy: `[id] name`.
pub open spec fn class_line(c: ClassificationView) -> Seq<char> {
    "["@ + decimal_seq(c.id as int) + "] "@ + c.name
}

/// The lines of `list`, joined by line breaks.
pub open spec fn class_lines(list: Seq<ClassificationView>) -> Seq<char>
    decreases list.len(),
{
    if list.len() == 0 {
        Seq::empty()
    } else if list.len() == 1 {
        class_line(list[0])
    } else {
        class_lines(list.drop_last()) + "\n"@ + class_line(list.last())
    }
}

/// The report of a path conversion: an error when an item was missing,
/// else the number converted followed by `done`.
pub open spec fn convert_effect(failed: bool, count: nat, done: Seq<char>) -> EffectView {
    if failed {
        EffectView::Error("错误"@, "转换失败: "@ + db_error_text(DbError::NotFound))
    } else {
        EffectView::Info("完成"@, "已转换 "@ + decimal_seq(count as int) + done)
    }
}

pub open spec fn opt_texts_view(v: Seq<Option<String>>) -> Seq<Option<Seq<char>>> {
    v.map_values(|x: Option<String>| opt_text(x))
}

/// The items among `ids` that have a target, with their targets, in the
/// order of `ids`.
pub open spec fn targets_of(s: DbState, ids: Seq<i64>) -> (Seq<i64>, Seq<Seq<char>>)
    decreases ids.len(),
{
    if ids.len() == 0 {
        (Seq::empty(), Seq::empty())
    } else {
        let (a, b) = targets_of(s, ids.drop_last());
        match item_target(s, ids.last()) {
            Some(t) => (a.push(ids.last()), b.push(t)),
            None => (a, b),
        }
    }
}

/// Setting found icons: the `j`-th icon (if any) goes to the item `ids[j]`
/// (if it is there), for the first `k` of `ids`; the store after it, and
/// how many icons were found.
pub open spec fn icons_applied(s: DbState, ids: Seq<i64>, icons: Seq<Option<Seq<char>>>, k: nat) -> (DbState, nat)
    decreases k,
{
    if k == 0 {
        (s, 0)
    } else {
        let (p, n) = icons_applied(s, ids, icons, (k - 1) as nat);
        let j = k - 1;
        if j < icons.len() && icons[j] is Some {
            (
                if find_item(p, ids[j]) is Some {
                    with_item_icon(p, ids[j], icons[j]->0)
                } else {
                    p
                },
                n + 1,
            )
        } else {
            (p, n)
        }
    }
}

/// Setting icons when none was found leaves the store as it was.
proof fn lemma_icons_applied_none(s: DbState, ids: Seq<i64>, icons: Seq<Option<Seq<char>>>, k: nat)
    ensures
        icons_applied(s, ids, icons, k).1 == 0 ==> icons_applied(s, ids, icons, k).0 == s,
        icons_applied(s, ids, icons, k).1 <= k,
    decreases k,
{
    if k > 0 {
        lemma_icons_applied_none(s, ids, icons, (k - 1) as nat);
    }
}

/// What the window is told after opening an item: the target to hand to
/// the system, if there is one.
pub open spec fn open_effects(t: Option<Seq<char>>) -> Seq<EffectView> {
    match t {
        Some(t) => seq![EffectView::Open(t)],
        None => Seq::empty(),
    }
}

// ------------------------------------------------------------------ steps

/// `c` with no dialog pending.
pub open spec fn idle(c: ControllerView) -> ControllerView {
    ControllerView { pending: Pending::Nothing, pending_ids: Seq::empty(), ..c }
}

/// Opening item `id` from the classification shown: when it is there, its
/// target is handed to the window to open (a target that is not a web
/// address only when it exists on disk) and its use is recorded at `now`,
/// whether or not it could be opened; otherwise nothing happens.
pub open spec fn open_step(
    c: ControllerView,
    s: DbState,
    id: i64,
    now: i64,
    c2: ControllerView,
    s2: DbState,
    e: Seq<EffectView>,
) -> bool {
    &&& c2 == c
    &&& match find_item(s, id) {
        Some(it) => if it.classification_id == c.current {
            &&& s2 == opened_item(s, id, now)
            &&& exists|ex: bool| e == open_effects(#[trigger] open_target_spec(it, ex))
        } else {
            s2 == s && e == Seq::<EffectView>::empty()
        },
        None => s2 == s && e == Seq::<EffectView>::empty(),
    }
}

/// Adding the item `path` gives to classification `cid`, ordered last;
/// the rows are listed afresh when that succeeds, and the icon of an item
/// that is not a web address is asked for. Nothing happens when no order
/// or no id is left.
pub open spec fn add_step(
    c: ControllerView,
    s: DbState,
    cid: i64,
    path: Seq<char>,
    c2: ControllerView,
    s2: DbState,
    e: Seq<EffectView>,
) -> bool {
    let m = max_item_order_of(s, cid);
    if m == i64::MAX || s.next_item_id == i64::MAX {
        c2 == c && s2 == s && e == Seq::<EffectView>::empty()
    } else {
        exists|is_dir: bool|
            {
                let it = #[trigger] item_for_path(path, cid, (m + 1) as i64, is_dir);
                let status = EffectView::Status(total_items_status(c2.shown.len()));
                &&& s2 == with_new_item(s, it)
                &&& fresh_rows(s2, cid, c2.shown)
                &&& if it.kind == ITEM_KIND_URL {
                    &&& c2 == ControllerView { shown: c2.shown, ..c }
                    &&& e == seq![EffectView::ShowItems, status]
                } else {
                    &&& c2 == ControllerView {
                        shown: c2.shown,
                        pending: Pending::Icons(false, cid),
                        pending_ids: seq![s.next_item_id as i64],
                        ..c
                    }
                    &&& e == seq![EffectView::ShowItems, status, EffectView::AskIcons(seq![it.data.target->0])]
                }
            }
    }
}

/// The store is left alone and the rows list classification `cid` afresh.
pub open spec fn refreshed(c: ControllerView, s2: DbState, cid: i64, c2: ControllerView) -> bool {
    &&& fresh_rows(s2, cid, c2.shown)
    &&& c2 == ControllerView { shown: c2.shown, ..c }
}


/// Nothing changes but the message that no item is selected.
pub open spec fn no_selection(c: ControllerView, s: DbState, c2: ControllerView, s2: DbState, e: Seq<EffectView>) -> bool {
    &&& s2 == s
    &&& c2 == c
    &&& e == seq![EffectView::Info("提示"@, "请先选择项目"@)]
}

/// Nothing changes and nothing is shown.
pub open spec fn unchanged(c: ControllerView, s: DbState, c2: ControllerView, s2: DbState, e: Seq<EffectView>) -> bool {
    &&& s2 == s
    &&& c2 == c
    &&& e == Seq::<EffectView>::empty()
}

/// A dialog is opened for `p`; nothing else changes.
pub open spec fn asks(
    c: ControllerView,
    s: DbState,
    p: Pending,
    ids: Seq<i64>,
    shown: Seq<EffectView>,
    c2: ControllerView,
    s2: DbState,
    e: Seq<EffectView>,
) -> bool {
    &&& s2 == s
    &&& c2 == ControllerView { pending: p, pending_ids: ids, ..c }
    &&& e == shown
}

/// What a chosen menu command does.
pub open spec fn menu_step(
    c: ControllerView,
    s: DbState,
    cmd: MenuCommand,
    now: i64,
    c2: ControllerView,
    s2: DbState,
    e: Seq<EffectView>,
) -> bool {
    let ids = selected_ids(c.shown);
    match cmd {
        MenuCommand::NewItem => asks(c, s, Pending::ItemFile(c.current), Seq::empty(), seq![EffectView::AskFile], c2, s2, e),
        MenuCommand::BatchMode => {
            &&& s2 == s
            &&& c2 == ControllerView { batch: true, ..c }
            &&& e == seq![EffectView::BatchMode(true), EffectView::HideMenu]
        },
        MenuCommand::LockItemOrder => {
            let locked = classification_locked(s, c.current);
            &&& s2 == (if find_classification(s, c.current) is Some {
                with_classification_locked(s, c.current, !locked)
            } else {
                s
            })
            &&& c2 == c
            &&& e == seq![
                EffectView::Info(
                    "锁定状态"@,
                    if !locked {
                        "已锁定项目顺序"@
                    } else {
                        "已解锁项目顺序"@
                    },
                ),
            ]
        },
        MenuCommand::ItemSettings => {
            &&& s2 == s
            &&& c2 == c
            &&& e == seq![EffectView::Info("项目设置"@, "项目设置弹窗（待实现）"@)]
        },
        MenuCommand::NewClassification => asks(
            c,
            s,
            Pending::ClassificationName,
            Seq::empty(),
            seq![EffectView::AskText("新建分类"@, "请输入分类名称"@)],
            c2,
            s2,
            e,
        ),
        MenuCommand::LockClassificationOrder => {
            &&& s2 == s
            &&& c2 == c
            &&& e == seq![EffectView::Info("锁定分类顺序"@, "分类顺序锁定功能（待完善）"@)]
        },
        MenuCommand::RenameClassification => asks(
            c,
            s,
            Pending::RenameClassification(c.right_class),
            Seq::empty(),
            seq![EffectView::AskText("重命名分类"@, "请输入新名称"@)],
            c2,
            s2,
            e,
        ),
        MenuCommand::AddChildClassification => asks(
            c,
            s,
            Pending::ChildName(c.right_class),
            Seq::empty(),
            seq![EffectView::AskText("新建子分类"@, "请输入子分类名称"@)],
            c2,
            s2,
            e,
        ),
        MenuCommand::DeleteClassification => asks(
            c,
            s,
            Pending::DeleteClassification(c.right_class),
            Seq::empty(),
            seq![EffectView::AskConfirm("删除分类"@, "删除分类将同时删除其下所有项目，确定继续吗？"@)],
            c2,
            s2,
            e,
        ),
        MenuCommand::OpenItem => open_step(c, s, c.right_item, now, c2, s2, e),
        MenuCommand::OpenLocation => {
            &&& s2 == s
            &&& c2 == c
            &&& e == match item_target(s, c.right_item) {
                Some(t) => seq![EffectView::OpenLocation(t)],
                None => Seq::<EffectView>::empty(),
            }
        },
        MenuCommand::RenameItem => asks(
            c,
            s,
            Pending::RenameItem(c.right_item, c.current),
            Seq::empty(),
            seq![EffectView::AskText("重命名项目"@, "请输入新名称"@)],
            c2,
            s2,
            e,
        ),
        MenuCommand::CopyPath => {
            &&& s2 == s
            &&& c2 == c
            &&& e == match item_target(s, c.right_item) {
                Some(t) => seq![EffectView::CopyText(t)],
                None => Seq::<EffectView>::empty(),
            }
        },
        MenuCommand::RefreshIcon => match item_target(s, c.right_item) {
            Some(t) => asks(
                c,
                s,
                Pending::Icons(false, c.current),
                seq![c.right_item],
                seq![EffectView::AskIcons(seq![t])],
                c2,
                s2,
                e,
            ),
            None => unchanged(c, s, c2, s2, e),
        },
        MenuCommand::ToRelative => {
            let (st, n, failed) = relative_prefix(s, seq![c.right_item], c.data_dir, 1);
            &&& s2 == st
            &&& refreshed(c, s2, c.current, c2)
            &&& e == seq![convert_effect(failed, n, " 个项目"@), EffectView::ShowItems]
        },
        MenuCommand::ToAbsolute => exists|outcomes: Seq<Option<Seq<char>>>|
            {
                let (st, n, failed) = #[trigger] absolute_prefix(
                    s,
                    seq![c.right_item],
                    c.data_dir,
                    outcomes,
                    1,
                );
                &&& outcomes.len() == 1
                &&& outcomes_ok(outcomes)
                &&& s2 == st
                &&& refreshed(c, s2, c.current, c2)
                &&& e == seq![convert_effect(failed, n, " 个项目"@), EffectView::ShowItems]
            },
        MenuCommand::DeleteItem => asks(
            c,
            s,
            Pending::DeleteItem(c.right_item, c.current),
            Seq::empty(),
            seq![EffectView::AskConfirm("删除项目"@, "确定删除该项目吗？"@)],
            c2,
            s2,
            e,
        ),
        MenuCommand::SelectAll => {
            &&& s2 == s
            &&& selected_rows(s, c.current, c2.shown)
            &&& c2 == ControllerView { shown: c2.shown, ..c }
            &&& e == seq![EffectView::ShowItems]
        },
        MenuCommand::BatchDelete => if ids.len() == 0 {
            no_selection(c, s, c2, s2, e)
        } else {
            asks(
                c,
                s,
                Pending::BatchDelete(c.current),
                ids,
                seq![
                    EffectView::AskConfirm(
                        "批量删除"@,
                        "确定删除选中的 "@ + decimal_seq(ids.len() as int) + " 个项目吗？"@,
                    ),
                ],
                c2,
                s2,
                e,
            )
        },
        MenuCommand::BatchRelative => if ids.len() == 0 {
            no_selection(c, s, c2, s2, e)
        } else {
            let (st, n, failed) = relative_prefix(s, ids, c.data_dir, ids.len());
            &&& s2 == st
            &&& c2 == c
            &&& e == seq![convert_effect(failed, n, " 个项目为相对路径"@)]
        },
        MenuCommand::BatchAbsolute => if ids.len() == 0 {
            no_selection(c, s, c2, s2, e)
        } else {
            exists|outcomes: Seq<Option<Seq<char>>>|
                {
                    let (st, n, failed) = #[trigger] absolute_prefix(
                        s,
                        ids,
                        c.data_dir,
                        outcomes,
                        ids.len(),
                    );
                    &&& outcomes.len() == ids.len()
                    &&& outcomes_ok(outcomes)
                    &&& s2 == st
                    &&& c2 == c
                    &&& e == seq![convert_effect(failed, n, " 个项目为绝对路径"@)]
                }
        },
        MenuCommand::BatchRefreshIcon => if ids.len() == 0 {
            no_selection(c, s, c2, s2, e)
        } else {
            let (tids, targets) = targets_of(s, ids);
            asks(c, s, Pending::Icons(true, c.current), tids, seq![EffectView::AskIcons(targets)], c2, s2, e)
        },
        MenuCommand::BatchMove | MenuCommand::BatchCopy => if ids.len() == 0 {
            no_selection(c, s, c2, s2, e)
        } else {
            exists|list: Seq<ClassificationView>|
                {
                    &&& #[trigger] is_sorted_classification_listing(list, s.classifications)
                    &&& asks(
                        c,
                        s,
                        Pending::BatchTarget(cmd == MenuCommand::BatchCopy, c.current),
                        ids,
                        seq![
                            EffectView::AskText(
                                "选择目标分类"@,
                                "请输入目标分类ID:\n"@ + class_lines(list),
                            ),
                        ],
                        c2,
                        s2,
                        e,
                    )
                }
        },
        MenuCommand::BatchCancel => {
            &&& s2 == s
            &&& refreshed(ControllerView { batch: false, ..c }, s, c.current, c2)
            &&& e == seq![EffectView::BatchMode(false), EffectView::ShowItems]
        },
        MenuCommand::Unknown => unchanged(c, s, c2, s2, e),
    }
}

/// What the answer of a file dialog does.
pub open spec fn file_reply_step(
    c: ControllerView,
    s: DbState,
    o: Option<Seq<char>>,
    c2: ControllerView,
    s2: DbState,
    e: Seq<EffectView>,
) -> bool {
    match c.pending {
        Pending::ItemFile(cid) => match o {
            Some(p) => add_step(idle(c), s, cid, p, c2, s2, e),
            None => unchanged(idle(c), s, c2, s2, e),
        },
        _ => unchanged(c, s, c2, s2, e),
    }
}

/// What the answer of a text dialog does.
pub open spec fn text_reply_step(
    c: ControllerView,
    s: DbState,
    o: Option<Seq<char>>,
    c2: ControllerView,
    s2: DbState,
    e: Seq<EffectView>,
) -> bool {
    match c.pending {
        Pending::ClassificationName => match o {
            None => unchanged(idle(c), s, c2, s2, e),
            Some(name) => {
                let m = max_classification_order_of(s, None);
                if m == i64::MAX || s.next_classification_id == i64::MAX {
                    unchanged(idle(c), s, c2, s2, e)
                } else {
                    &&& s2 == with_new_classification(s, None, name, (m + 1) as i64)
                    &&& c2 == ControllerView { shown: Seq::empty(), ..idle(c) }
                    &&& e == seq![
                        EffectView::ShowClassifications(s.next_classification_id as i64),
                        EffectView::ShowItems,
                        EffectView::Status("0 个项目"@),
                    ]
                }
            },
        },
        Pending::RenameClassification(cid) => match o {
            None => unchanged(idle(c), s, c2, s2, e),
            Some(name) => {
                &&& s2 == renamed_classification(s, cid, name)
                &&& c2 == idle(c)
                &&& e == seq![EffectView::ShowClassifications(cid)]
            },
        },
        Pending::ChildName(cid) => match o {
            None => unchanged(idle(c), s, c2, s2, e),
            Some(name) => {
                let m = max_classification_order_of(s, Some(cid));
                if m == i64::MAX || s.next_classification_id == i64::MAX {
                    unchanged(idle(c), s, c2, s2, e)
                } else {
                    &&& s2 == with_new_classification(s, Some(cid), name, (m + 1) as i64)
                    &&& c2 == idle(c)
                    &&& e == seq![EffectView::Info("成功"@, "子分类已创建"@)]
                }
            },
        },
        Pending::RenameItem(id, cid) => match o {
            None => unchanged(idle(c), s, c2, s2, e),
            Some(name) => {
                &&& s2 == renamed_item(s, id, name)
                &&& refreshed(idle(c), s2, cid, c2)
                &&& e == seq![EffectView::ShowItems]
            },
        },
        Pending::BatchTarget(copy, cid) => match o {
            None => unchanged(idle(c), s, c2, s2, e),
            Some(t) => match parse_i64_seq(trim_seq(t)) {
                None => unchanged(idle(c), s, c2, s2, e),
                Some(target) => if max_item_order_of(s, target) + c.pending_ids.len() > i64::MAX {
                    unchanged(idle(c), s, c2, s2, e)
                } else if !copy {
                    &&& s2 == moved_items(s, c.pending_ids, target)
                    &&& refreshed(ControllerView { batch: false, ..idle(c) }, s2, cid, c2)
                    &&& e == seq![
                        EffectView::ShowItems,
                        EffectView::BatchMode(false),
                        EffectView::Info("完成"@, "batch-move 操作成功"@),
                    ]
                } else {
                    match copied_items(s, c.pending_ids, target) {
                        Some(st) => {
                            &&& s2 == st
                            &&& refreshed(ControllerView { batch: false, ..idle(c) }, s2, cid, c2)
                            &&& e == seq![
                                EffectView::ShowItems,
                                EffectView::BatchMode(false),
                                EffectView::Info("完成"@, "batch-copy 操作成功"@),
                            ]
                        },
                        None => {
                            &&& s2 == s
                            &&& c2 == idle(c)
                            &&& e == seq![
                                EffectView::Error(
                                    "错误"@,
                                    "操作失败: "@ + db_error_text(DbError::IdSpaceExhausted),
                                ),
                            ]
                        },
                    }
                },
            },
        },
        _ => unchanged(c, s, c2, s2, e),
    }
}

/// What the answer of a yes/no dialog does.
pub open spec fn confirm_reply_step(
    c: ControllerView,
    s: DbState,
    yes: bool,
    c2: ControllerView,
    s2: DbState,
    e: Seq<EffectView>,
) -> bool {
    match c.pending {
        Pending::DeleteClassification(cid) => if yes {
            &&& s2 == without_classification(s, cid)
            &&& exists|list: Seq<ClassificationView>|
                {
                    let first = if list.len() == 0 {
                        0i64
                    } else {
                        list[0].id
                    };
                    &&& #[trigger] is_sorted_classification_listing(list, parent_classifications(s2))
                    &&& refreshed(idle(c), s2, first, c2)
                    &&& e == seq![
                        EffectView::ShowClassifications(first),
                        EffectView::ShowItems,
                        EffectView::Status(totals_status(list.len(), c2.shown.len())),
                    ]
                }
        } else {
            unchanged(idle(c), s, c2, s2, e)
        },
        Pending::DeleteItem(id, cid) => if yes {
            &&& s2 == without_items(s, seq![id])
            &&& refreshed(idle(c), s2, cid, c2)
            &&& e == seq![EffectView::ShowItems, EffectView::Status(total_items_status(c2.shown.len()))]
        } else {
            unchanged(idle(c), s, c2, s2, e)
        },
        Pending::BatchDelete(cid) => if yes {
            &&& s2 == without_items(s, c.pending_ids)
            &&& refreshed(ControllerView { batch: false, ..idle(c) }, s2, cid, c2)
            &&& e == seq![EffectView::ShowItems, EffectView::BatchMode(false)]
        } else {
            unchanged(idle(c), s, c2, s2, e)
        },
        _ => unchanged(c, s, c2, s2, e),
    }
}

/// What the answer to a request for icons does: the icons found are set,
/// and the rows listed afresh; a batch refresh then tells how many icons
/// it found, a single one shows the rows only when it found the icon.
pub open spec fn icons_reply_step(
    c: ControllerView,
    s: DbState,
    icons: Seq<Option<Seq<char>>>,
    c2: ControllerView,
    s2: DbState,
    e: Seq<EffectView>,
) -> bool {
    match c.pending {
        Pending::Icons(batch, cid) => {
            let (st, n) = icons_applied(s, c.pending_ids, icons, c.pending_ids.len());
            if batch {
                &&& s2 == st
                &&& refreshed(idle(c), s2, cid, c2)
                &&& e == seq![
                    EffectView::ShowItems,
                    EffectView::Info("完成"@, "已刷新 "@ + decimal_seq(n as int) + " 个项目图标"@),
                ]
            } else if n > 0 {
                &&& s2 == st
                &&& refreshed(idle(c), s2, cid, c2)
                &&& e == seq![EffectView::ShowItems]
            } else {
                unchanged(idle(c), s, c2, s2, e)
            }
        },
        _ => unchanged(c, s, c2, s2, e),
    }
}

/// What event `ev` does, `now` being the time it came at (milliseconds):
/// the controller goes from `c` to `c2`, the store from `s` to `s2`, and
/// the window is told `e`.
pub open spec fn step(
    c: ControllerView,
    s: DbState,
    ev: EventView,
    now: i64,
    c2: ControllerView,
    s2: DbState,
    e: Seq<EffectView>,
) -> bool {
    match ev {
        EventView::ClassificationClicked(id) => {
            &&& s2 == s
            &&& refreshed(ControllerView { current: id as i64, ..c }, s, id as i64, c2)
            &&& e == seq![
                EffectView::ShowClassifications(id as i64),
                EffectView::ShowItems,
                EffectView::Status(items_count_status(c2.shown.len())),
            ]
        },
        EventView::ItemClicked(id) => if c.batch {
            &&& s2 == s
            &&& c2 == ControllerView { shown: toggled(c.shown, id), ..c }
            &&& e == seq![EffectView::ShowItems]
        } else {
            open_step(c, s, id as i64, now, c2, s2, e)
        },
        EventView::ItemDoubleClicked(id) => open_step(c, s, id as i64, now, c2, s2, e),
        EventView::ItemRightClicked(id) => {
            &&& s2 == s
            &&& c2 == ControllerView { right_item: id as i64, ..c }
            &&& e == seq![EffectView::ShowMenu(MenuKind::Item)]
        },
        EventView::ClassificationRightClicked(id) => {
            &&& s2 == s
            &&& c2 == ControllerView { right_class: id as i64, ..c }
            &&& e == seq![
                EffectView::ShowMenu(
                    MenuKind::ClassificationItem(child_classifications(s, id as i64).len() > 0),
                ),
            ]
        },
        EventView::ItemAreaRightClicked => {
            &&& s2 == s
            &&& c2 == c
            &&& e == seq![
                EffectView::ShowMenu(
                    if c.batch {
                        MenuKind::Batch
                    } else {
                        MenuKind::ItemArea
                    },
                ),
            ]
        },
        EventView::ClassificationAreaRightClicked => {
            &&& s2 == s
            &&& c2 == c
            &&& e == seq![EffectView::ShowMenu(MenuKind::ClassificationArea)]
        },
        EventView::AddItemClicked => asks(c, s, Pending::ItemFile(c.current), Seq::empty(), seq![EffectView::AskFile], c2, s2, e),
        EventView::AddClassificationClicked => asks(
            c,
            s,
            Pending::ClassificationName,
            Seq::empty(),
            seq![EffectView::AskText("新建分类"@, "请输入分类名称"@)],
            c2,
            s2,
            e,
        ),
        EventView::ItemDropped(p) => add_step(c, s, c.current, p, c2, s2, e),
        EventView::SettingsClicked => {
            &&& s2 == s
            &&& c2 == c
            &&& e == seq![
                EffectView::ShowSettings(
                    setting_or(s, "theme_mode"@, "light"@),
                    setting_flag(s, "auto_start"@, false),
                    setting_flag(s, "window_topmost"@, false),
                    setting_number(s, "item_columns"@, 8),
                ),
            ]
        },
        EventView::ThemeModeChanged(m) => {
            &&& s2 == with_setting(s, "theme_mode"@, m)
            &&& c2 == c
            &&& e == seq![EffectView::Theme(m)]
        },
        EventView::AutoStartChanged(b) => {
            &&& s2 == with_setting(
                s,
                "auto_start"@,
                if b {
                    text_one()
                } else {
                    text_zero()
                },
            )
            &&& c2 == c
            &&& e == seq![EffectView::AutoStart(b)]
        },
        EventView::WindowTopmostChanged(b) => {
            &&& s2 == with_setting(
                s,
                "window_topmost"@,
                if b {
                    text_one()
                } else {
                    text_zero()
                },
            )
            &&& c2 == c
            &&& e == seq![EffectView::Topmost(b)]
        },
        EventView::ItemColumnsChanged(n) => {
            &&& s2 == with_setting(s, "item_columns"@, decimal_seq(n as int))
            &&& c2 == c
            &&& e == seq![EffectView::Columns(n as i64)]
        },
        EventView::WindowClosed => {
            &&& s2 == s
            &&& c2 == c
            &&& e == seq![EffectView::Exit]
        },
        EventView::MenuSelected(src, act) => menu_step(c, s, menu_command_spec(src, act), now, c2, s2, e),
        EventView::FileChosen(o) => file_reply_step(c, s, o, c2, s2, e),
        EventView::TextEntered(o) => text_reply_step(c, s, o, c2, s2, e),
        EventView::Confirmed(b) => confirm_reply_step(c, s, b, c2, s2, e),
        EventView::IconsFound(icons) => icons_reply_step(c, s, icons, c2, s2, e),
    }
}

/// What starting the window does: the store gets its default data, the
/// first top-level classification (by order) is shown with its items, and
/// the saved theme and on-top setting are applied.
pub open spec fn start_step(s: DbState, data_dir: Seq<char>, c2: ControllerView, s2: DbState, e: Seq<EffectView>) -> bool {
    &&& s2 == with_default_data(s)
    &&& exists|list: Seq<ClassificationView>|
        {
            let first = if list.len() == 0 {
                0i64
            } else {
                list[0].id
            };
            &&& #[trigger] is_sorted_classification_listing(list, parent_classifications(s2))
            &&& fresh_rows(s2, first, c2.shown)
            &&& c2 == ControllerView {
                current: first,
                batch: false,
                shown: c2.shown,
                right_item: 0,
                right_class: 0,
                pending: Pending::Nothing,
                pending_ids: Seq::empty(),
                data_dir,
            }
            &&& e == seq![
                EffectView::ShowClassifications(first),
                EffectView::ShowItems,
                EffectView::Status(totals_status(list.len(), c2.shown.len())),
                EffectView::Theme(setting_or(s2, "theme_mode"@, "light"@)),
                EffectView::Topmost(setting_flag(s2, "window_topmost"@, false)),
            ]
        }
}

// ------------------------------------------------------------------ helpers

fn text(t: &str) -> (r: String)
    ensures
        r@ == t@,
{
    String::from_str(t)
}

fn count_text(a: &str, n: usize, b: &str) -> (r: String)
    ensures
        r@ == a@ + decimal_seq(n as int) + b@,
{
    let mut out = String::from_str(a);
    let d = format_count(n);
    out.append(d.as_str());
    out.append(b);
    out
}

fn totals_text(c: usize, n: usize) -> (r: String)
    ensures
        r@ == totals_status(c as nat, n as nat),
{
    let mut out = count_text("共 ", c, " 个分类，");
    let d = format_count(n);
    out.append(d.as_str());
    out.append(" 个项目");
    out
}

fn one(e: Effect) -> (r: Vec<Effect>)
    ensures
        effects_view(r@) == seq![e@],
{
    let mut v: Vec<Effect> = Vec::new();
    v.push(e);
    assert(effects_view(v@) =~= seq![e@]);
    v
}

fn two(a: Effect, b: Effect) -> (r: Vec<Effect>)
    ensures
        effects_view(r@) == seq![a@, b@],
{
    let mut v: Vec<Effect> = Vec::new();
    v.push(a);
    v.push(b);
    assert(effects_view(v@) =~= seq![a@, b@]);
    v
}

fn three(a: Effect, b: Effect, c: Effect) -> (r: Vec<Effect>)
    ensures
        effects_view(r@) == seq![a@, b@, c@],
{
    let mut v: Vec<Effect> = Vec::new();
    v.push(a);
    v.push(b);
    v.push(c);
    assert(effects_view(v@) =~= seq![a@, b@, c@]);
    v
}

fn none() -> (r: Vec<Effect>)
    ensures
        effects_view(r@) == Seq::<EffectView>::empty(),
{
    let v: Vec<Effect> = Vec::new();
    assert(effects_view(v@) =~= Seq::<EffectView>::empty());
    v
}

/// The rows of the items of classification `cid` in listing order, each
/// selected (and unchecked) or not (and checked) as `selected` says.
fn listed_rows(db: &Database, cid: i64, selected: bool) -> (r: Vec<ShownItem>)
    requires
        db.wf(),
    ensures
        !selected ==> fresh_rows(db@, cid, rows_view(r@)),
        selected ==> selected_rows(db@, cid, rows_view(r@)),
{
    let items = db.list_items(cid);
    let mut rows: Vec<ShownItem> = Vec::new();
    let mut i: usize = 0;
    while i < items.len()
        invariant
            i <= items@.len(),
            rows@.len() == i,
            forall|k: int|
                0 <= k < i ==> {
                    &&& (#[trigger] rows@[k]).item@ == items@[k]@
                    &&& rows@[k].selected == selected
                    &&& rows@[k].checked == !selected
                },
        decreases items@.len() - i,
    {
        rows.push(ShownItem { item: items[i].clone(), selected, checked: !selected });
        i = i + 1;
    }
    proof {
        let rv = rows_view(rows@);
        assert(rows_items(rv) =~= item_views(items@)) by {
            assert forall|k: int| 0 <= k < rv.len() implies #[trigger] rows_items(rv)[k] == item_views(items@)[k] by {
                assert(rv[k] == rows@[k]@);
            }
        }
        assert forall|k: int| 0 <= k < rv.len() implies (#[trigger] rv[k]).1 == selected && rv[k].2 == !selected by {
            assert(rv[k] == rows@[k]@);
        }
    }
    rows
}

/// `rows` with the selection of the rows showing item `id` flipped.
fn toggle_rows(rows: &Vec<ShownItem>, id: i32) -> (r: Vec<ShownItem>)
    ensures
        rows_view(r@) == toggled(rows_view(rows@), id),
{
    let mut out: Vec<ShownItem> = Vec::new();
    let mut i: usize = 0;
    while i < rows.len()
        invariant
            i <= rows@.len(),
            out@.len() == i,
            forall|k: int|
                0 <= k < i ==> (#[trigger] out@[k])@ == toggled(rows_view(rows@), id)[k],
        decreases rows@.len() - i,
    {
        let row = &rows[i];
        let flip = row.item.id as i32 == id;
        proof {
            assert(rows_view(rows@)[i as int] == row@);
        }
        out.push(
            ShownItem {
                item: row.item.clone(),
                selected: if flip {
                    !row.selected
                } else {
                    row.selected
                },
                checked: row.checked,
            },
        );
        i = i + 1;
    }
    proof {
        assert(rows_view(out@) =~= toggled(rows_view(rows@), id)) by {
            assert forall|k: int| 0 <= k < out@.len() implies #[trigger] rows_view(out@)[k] == toggled(
                rows_view(rows@),
                id,
            )[k] by {
                assert(rows_view(out@)[k] == out@[k]@);
            }
        }
    }
    out
}

/// The ids of the selected rows, top to bottom.
fn selected_row_ids(rows: &Vec<ShownItem>) -> (r: Vec<i64>)
    ensures
        r@ == selected_ids(rows_view(rows@)),
{
    let mut out: Vec<i64> = Vec::new();
    let mut i: usize = 0;
    while i < rows.len()
        invariant
            i <= rows@.len(),
            out@ == selected_ids(rows_view(rows@).take(i as int)),
        decreases rows@.len() - i,
    {
        let ghost rv = rows_view(rows@);
        proof {
            assert(rv.take(i + 1).drop_last() =~= rv.take(i as int));
            assert(rv.take(i + 1).last() == rows@[i as int]@);
        }
        if rows[i].selected {
            out.push(rows[i].item.id);
        }
        i = i + 1;
    }
    proof {
        assert(rows_view(rows@).take(i as int) =~= rows_view(rows@));
    }
    out
}

/// The target list of a batch move or copy.
fn class_lines_text(list: &Vec<Classification>) -> (r: String)
    ensures
        r@ == class_lines(classification_views(list@)),
{
    let mut out = String::new();
    let mut i: usize = 0;
    while i < list.len()
        invariant
            i <= list@.len(),
            out@ == class_lines(classification_views(list@).take(i as int)),
        decreases list@.len() - i,
    {
        let ghost cv = classification_views(list@);
        proof {
            assert(cv.take(i + 1).drop_last() =~= cv.take(i as int));
            assert(cv.take(i + 1).last() == list@[i as int]@);
            if i == 0 {
                assert(cv.take(0) =~= Seq::<ClassificationView>::empty());
            }
        }
        if i > 0 {
            out.append("\n");
        }
        out.append("[");
        let d = format_i64(list[i].id);
        out.append(d.as_str());
        out.append("] ");
        out.append(list[i].name.as_str());
        proof {
            if i == 0 {
                assert(out@ =~= class_line(cv.take(1)[0]));
            } else {
                assert(out@ =~= class_lines(cv.take(i as int)) + "\n"@ + class_line(cv.take(i + 1).last()));
            }
        }
        i = i + 1;
    }
    proof {
        assert(classification_views(list@).take(i as int) =~= classification_views(list@));
    }
    out
}

/// The report of a path conversion.
fn convert_report(r: Result<usize, DbError>, done: &str) -> (e: Effect)
    ensures
        match r {
            Ok(n) => e@ == convert_effect(false, n as nat, done@),
            Err(err) => err == DbError::NotFound ==> e@ == convert_effect(true, 0, done@),
        },
{
    match r {
        Ok(n) => Effect::Info(text("完成"), count_text("已转换 ", n, done)),
        Err(err) => {
            let mut m = String::from_str("转换失败: ");
            let t = err.message();
            m.append(t.as_str());
            Effect::Error(text("错误"), m)
        },
    }
}

/// The answer of a text dialog: what was entered, trimmed; `None` when
/// nothing but white space was entered.
pub fn text_answer(raw: &str) -> (r: Option<String>)
    ensures
        match r {
            Some(t) => t@ == trim_seq(raw@) && t@.len() > 0,
            None => trim_seq(raw@).len() == 0,
        },
{
    let t = string_from_chars(&trim_chars(&str_chars(raw)));
    if t.as_str().is_empty() {
        None
    } else {
        Some(t)
    }
}

pub open spec fn texts_view(v: Seq<String>) -> Seq<Seq<char>> {
    v.map_values(|x: String| x@)
}

/// The action a choice dialog settles on. With no actions there is none;
/// a single action is taken without asking; otherwise `answer` is what the
/// user entered (`None` when the dialog could not be shown), and its
/// trimmed text read as a number `i` from 1 to the number of actions picks
/// the `i`-th action.
pub open spec fn chosen_action_spec(actions: Seq<Seq<char>>, answer: Option<Seq<char>>) -> Option<Seq<char>> {
    if actions.len() == 0 {
        None
    } else if actions.len() == 1 {
        Some(actions[0])
    } else {
        match answer {
            None => None,
            Some(a) => match parse_index_seq(trim_seq(a)) {
                Some(i) => if 1 <= i <= actions.len() {
                    Some(actions[i - 1])
                } else {
                    None
                },
                None => None,
            },
        }
    }
}

/// The action a choice dialog settles on (see [`chosen_action_spec`]).
pub fn chosen_action(actions: &Vec<String>, answer: Option<&str>) -> (r: Option<String>)
    ensures
        opt_text(r) == chosen_action_spec(
            texts_view(actions@),
            match answer {
                Some(a) => Some(a@),
                None => None,
            },
        ),
{
    let n = actions.len();
    if n == 0 {
        return None;
    }
    if n == 1 {
        return Some(actions[0].clone());
    }
    match answer {
        None => None,
        Some(a) => {
            let t = string_from_chars(&trim_chars(&str_chars(a)));
            match parse_index_upto(t.as_str(), n) {
                Some(i) => Some(actions[i - 1].clone()),
                None => None,
            }
        },
    }
}

/// The list row of a shown item: its target checked on disk when the row
/// says so, never invalid otherwise.
pub fn row_entry(row: &ShownItem) -> (r: ItemEntry)
    ensures
        r.id == row.item.id as i32,
        r.name@ == row.item.name@,
        r.selected == row.selected,
        row.checked ==> exists|e: bool| r.invalid == invalid_spec(row.item@, e),
        !row.checked ==> !r.invalid,
        match r.icon {
            Some(b) => icon_bytes_spec(row.item@.data.icon) == Some(b@),
            None => icon_bytes_spec(row.item@.data.icon) is None,
        },
{
    if row.checked {
        let e = item_entry_checked(&row.item);
        ItemEntry { id: e.id, name: e.name, icon: e.icon, invalid: e.invalid, selected: row.selected }
    } else {
        ItemEntry {
            id: row.item.id as i32,
            name: row.item.name.clone(),
            icon: item_icon_bytes(&row.item),
            invalid: false,
            selected: row.selected,
        }
    }
}

// ------------------------------------------------------------------ controller

impl Controller {
    /// Starts the window on `db`: default data is created when the store
    /// is empty, and the first top-level classification is shown. Fails,
    /// changing nothing, when the default classification cannot be given
    /// an id.
    pub fn start(db: &mut Database, data_dir: &str) -> (r: Result<(Controller, Vec<Effect>), DbError>)
        requires
            old(db).wf(),
        ensures
            final(db).wf(),
            match r {
                Ok((c, e)) => start_step(old(db)@, data_dir@, c@, final(db)@, effects_view(e@)),
                Err(err) => err == DbError::IdSpaceExhausted && final(db)@ == old(db)@,
            },
    {
        match db.ensure_default_data() {
            Err(e) => {
                return Err(e);
            },
            Ok(()) => {},
        }
        let list = db.list_parent_classifications();
        let first: i64 = if list.len() == 0 {
            0
        } else {
            list[0].id
        };
        let shown = listed_rows(db, first, false);
        let theme = db.get_setting("theme_mode", "light");
        let topmost = db.get_setting_bool("window_topmost", false);
        let status = totals_text(list.len(), shown.len());
        let c = Controller {
            current: first,
            batch: false,
            shown,
            right_item: 0,
            right_class: 0,
            pending: Pending::Nothing,
            pending_ids: Vec::new(),
            data_dir: String::from_str(data_dir),
        };
        let mut e: Vec<Effect> = Vec::new();
        e.push(Effect::ShowClassifications(first));
        e.push(Effect::ShowItems);
        e.push(Effect::Status(status));
        e.push(Effect::Theme(theme));
        e.push(Effect::Topmost(topmost));
        proof {
            let lv = classification_views(list@);
            if list@.len() > 0 {
                assert(lv[0] == list@[0]@);
            }
            assert(c@.pending_ids =~= Seq::<i64>::empty());
            assert(effects_view(e@) =~= seq![
                EffectView::ShowClassifications(first),
                EffectView::ShowItems,
                EffectView::Status(totals_status(lv.len(), c@.shown.len())),
                EffectView::Theme(setting_or(db@, "theme_mode"@, "light"@)),
                EffectView::Topmost(setting_flag(db@, "window_topmost"@, false)),
            ]);
            assert(is_sorted_classification_listing(lv, parent_classifications(db@)));
        }
        Ok((c, e))
    }

    /// The item rows shown.
    pub fn rows(&self) -> (r: &Vec<ShownItem>)
        ensures
            rows_view(r@) == self@.shown,
    {
        &self.shown
    }

    /// The classification whose items are shown.
    pub fn current_classification_id(&self) -> (r: i64)
        ensures
            r == self@.current,
    {
        self.current
    }

    /// Whether batch mode is on.
    pub fn batch_mode(&self) -> (r: bool)
        ensures
            r == self@.batch,
    {
        self.batch
    }

    /// What the open dialog is for.
    pub fn pending(&self) -> (r: Pending)
        ensures
            r == self@.pending,
    {
        self.pending
    }

    fn ask(&mut self, p: Pending, ids: Vec<i64>, e: Effect) -> (r: Vec<Effect>)
        ensures
            final(self)@ == (ControllerView { pending: p, pending_ids: ids@, ..old(self)@ }),
            effects_view(r@) == seq![e@],
    {
        self.pending = p;
        self.pending_ids = ids;
        one(e)
    }

    fn go_idle(&mut self)
        ensures
            final(self)@ == idle(old(self)@),
    {
        self.pending = Pending::Nothing;
        self.pending_ids = Vec::new();
        assert(self@ =~= idle(old(self)@));
    }

    /// Lists the items of `cid` afresh.
    fn relist(&mut self, db: &Database, cid: i64)
        requires
            db.wf(),
        ensures
            refreshed(old(self)@, db@, cid, final(self)@),
    {
        self.shown = listed_rows(db, cid, false);
    }

    fn open_by_id(&self, db: &mut Database, id: i64, now: i64) -> (r: Vec<Effect>)
        requires
            old(db).wf(),
        ensures
            final(db).wf(),
            open_step(self@, old(db)@, id, now, self@, final(db)@, effects_view(r@)),
    {
        match db.get_item(id) {
            Some(it) => {
                if it.classification_id == self.current {
                    let target = open_item(&it);
                    db.record_item_open(id, now);
                    let r = match target {
                        Some(t) => one(Effect::Open(t)),
                        None => none(),
                    };
                    proof {
                        let ex = choose|ex: bool| opt_text(target) == #[trigger] open_target_spec(it@, ex);
                        assert(effects_view(r@) == open_effects(open_target_spec(it@, ex)));
                    }
                    r
                } else {
                    none()
                }
            },
            None => none(),
        }
    }

    fn add_path(&mut self, db: &mut Database, cid: i64, path: &str) -> (r: Vec<Effect>)
        requires
            old(db).wf(),
        ensures
            final(db).wf(),
            add_step(old(self)@, old(db)@, cid, path@, final(self)@, final(db)@, effects_view(r@)),
    {
        let m = db.max_item_order(cid);
        if m == i64::MAX {
            return none();
        }
        let item = build_item_from_path(path, cid, m + 1);
        match db.insert_item(&item) {
            Ok(id) => {
                self.relist(db, cid);
                let status = count_text("共 ", self.shown.len(), " 个项目");
                let r = if item.kind == ITEM_KIND_URL {
                    two(Effect::ShowItems, Effect::Status(status))
                } else {
                    let target = match clone_opt_string(&item.data.target) {
                        Some(t) => t,
                        None => String::new(),
                    };
                    let mut targets: Vec<String> = Vec::new();
                    targets.push(target);
                    let mut ids: Vec<i64> = Vec::new();
                    ids.push(id);
                    proof {
                        assert(texts_view(targets@) =~= seq![targets@[0]@]);
                        assert(ids@ =~= seq![id]);
                    }
                    self.pending = Pending::Icons(false, cid);
                    self.pending_ids = ids;
                    three(Effect::ShowItems, Effect::Status(status), Effect::AskIcons(targets))
                };
                proof {
                    let w = choose|is_dir: bool| item@ == #[trigger] item_for_path(path@, cid, (m + 1) as i64, is_dir);
                    assert(item@ == item_for_path(path@, cid, (m + 1) as i64, w));
                    db.lemma_state_wf();
                    assert(db@.next_item_id == old(db)@.next_item_id + 1);
                    assert(self@.shown.len() == self.shown@.len());
                }
                r
            },
            Err(_) => none(),
        }
    }
}

impl Controller {
    fn show_classification(&mut self, db: &Database, id: i32) -> (r: Vec<Effect>)
        requires
            db.wf(),
        ensures
            step(old(self)@, db@, EventView::ClassificationClicked(id), 0, final(self)@, db@, effects_view(r@)),
    {
        self.current = id as i64;
        let ghost mid = self@;
        self.relist(db, id as i64);
        let status = count_text("", self.shown.len(), " 项");
        let r = three(Effect::ShowClassifications(id as i64), Effect::ShowItems, Effect::Status(status));
        proof {
            reveal_strlit("");
            assert(""@ + decimal_seq(self.shown@.len() as int) =~= decimal_seq(self.shown@.len() as int));
            assert(self@.shown.len() == self.shown@.len());
            assert(mid == ControllerView { current: id as i64, ..old(self)@ });
        }
        r
    }

    fn toggle(&mut self, id: i32) -> (r: Vec<Effect>)
        ensures
            final(self)@ == (ControllerView { shown: toggled(old(self)@.shown, id), ..old(self)@ }),
            effects_view(r@) == seq![EffectView::ShowItems],
    {
        self.shown = toggle_rows(&self.shown, id);
        one(Effect::ShowItems)
    }

    fn settings(&self, db: &Database) -> (r: Vec<Effect>)
        requires
            db.wf(),
        ensures
            step(self@, db@, EventView::SettingsClicked, 0, self@, db@, effects_view(r@)),
    {
        let theme = db.get_setting("theme_mode", "light");
        let auto_start = db.get_setting_bool("auto_start", false);
        let topmost = db.get_setting_bool("window_topmost", false);
        let columns = db.get_setting_i64("item_columns", 8);
        one(Effect::ShowSettings(theme, auto_start, topmost, columns))
    }

    /// Carries out event `event`, which came at time `now` (milliseconds),
    /// and returns what the window is to do.
    pub fn handle(&mut self, db: &mut Database, event: Event, now: i64) -> (r: Vec<Effect>)
        requires
            old(db).wf(),
        ensures
            final(db).wf(),
            step(old(self)@, old(db)@, event@, now, final(self)@, final(db)@, effects_view(r@)),
    {
        match event {
            Event::ClassificationClicked(id) => self.show_classification(db, id),
            Event::ItemClicked(id) => {
                if self.batch {
                    self.toggle(id)
                } else {
                    self.open_by_id(db, id as i64, now)
                }
            },
            Event::ItemDoubleClicked(id) => self.open_by_id(db, id as i64, now),
            Event::ItemRightClicked(id) => {
                self.right_item = id as i64;
                one(Effect::ShowMenu(MenuKind::Item))
            },
            Event::ClassificationRightClicked(id) => {
                self.right_class = id as i64;
                let with_children = db.has_child_classifications(id as i64);
                one(Effect::ShowMenu(MenuKind::ClassificationItem(with_children)))
            },
            Event::ItemAreaRightClicked => {
                if self.batch {
                    one(Effect::ShowMenu(MenuKind::Batch))
                } else {
                    one(Effect::ShowMenu(MenuKind::ItemArea))
                }
            },
            Event::ClassificationAreaRightClicked => one(Effect::ShowMenu(MenuKind::ClassificationArea)),
            Event::AddItemClicked => {
                let cid = self.current;
                self.ask(Pending::ItemFile(cid), Vec::new(), Effect::AskFile)
            },
            Event::AddClassificationClicked => self.ask(
                Pending::ClassificationName,
                Vec::new(),
                Effect::AskText(text("新建分类"), text("请输入分类名称")),
            ),
            Event::ItemDropped(p) => {
                let cid = self.current;
                self.add_path(db, cid, p.as_str())
            },
            Event::SettingsClicked => self.settings(db),
            Event::ThemeModeChanged(m) => {
                db.set_setting("theme_mode", m.as_str());
                one(Effect::Theme(m))
            },
            Event::AutoStartChanged(b) => {
                db.set_setting_bool("auto_start", b);
                one(Effect::AutoStart(b))
            },
            Event::WindowTopmostChanged(b) => {
                db.set_setting_bool("window_topmost", b);
                one(Effect::Topmost(b))
            },
            Event::ItemColumnsChanged(n) => {
                db.set_setting_i64("item_columns", n as i64);
                one(Effect::Columns(n as i64))
            },
            Event::WindowClosed => one(Effect::Exit),
            Event::MenuSelected(src, act) => {
                let cmd = menu_command(src.as_str(), act.as_str());
                self.run_command(db, cmd, now)
            },
            Event::FileChosen(o) => self.file_reply(db, o),
            Event::TextEntered(o) => self.text_reply(db, o),
            Event::Confirmed(b) => self.confirm_reply(db, b),
            Event::IconsFound(icons) => self.icons_reply(db, icons),
        }
    }
}

impl Controller {
    fn lock_item_order(&self, db: &mut Database) -> (r: Vec<Effect>)
        requires
            old(db).wf(),
        ensures
            final(db).wf(),
            menu_step(self@, old(db)@, MenuCommand::LockItemOrder, 0, self@, final(db)@, effects_view(r@)),
    {
        let locked = db.is_classification_locked(self.current);
        let _ = db.set_classification_locked(self.current, !locked);
        let msg = if !locked {
            text("已锁定项目顺序")
        } else {
            text("已解锁项目顺序")
        };
        one(Effect::Info(text("锁定状态"), msg))
    }

    fn refresh_icon(&mut self, db: &Database) -> (r: Vec<Effect>)
        requires
            db.wf(),
        ensures
            menu_step(old(self)@, db@, MenuCommand::RefreshIcon, 0, final(self)@, db@, effects_view(r@)),
    {
        let id = self.right_item;
        match db.get_item_target(id) {
            Some(t) => {
                let mut targets: Vec<String> = Vec::new();
                targets.push(t);
                let mut ids: Vec<i64> = Vec::new();
                ids.push(id);
                let cid = self.current;
                proof {
                    assert(texts_view(targets@) =~= seq![targets@[0]@]);
                    assert(ids@ =~= seq![id]);
                }
                self.ask(Pending::Icons(false, cid), ids, Effect::AskIcons(targets))
            },
            None => none(),
        }
    }

    fn to_relative(&mut self, db: &mut Database) -> (r: Vec<Effect>)
        requires
            old(db).wf(),
        ensures
            final(db).wf(),
            menu_step(old(self)@, old(db)@, MenuCommand::ToRelative, 0, final(self)@, final(db)@, effects_view(r@)),
    {
        let ids: Vec<i64> = vec![self.right_item];
        let base = self.data_dir.clone();
        let res = db.batch_to_relative_paths(ids.as_slice(), base.as_str());
        let report = convert_report(res, " 个项目");
        let cid = self.current;
        self.relist(db, cid);
        proof {
            assert(ids@ =~= seq![old(self)@.right_item]);
        }
        two(report, Effect::ShowItems)
    }

    fn to_absolute(&mut self, db: &mut Database) -> (r: Vec<Effect>)
        requires
            old(db).wf(),
        ensures
            final(db).wf(),
            menu_step(old(self)@, old(db)@, MenuCommand::ToAbsolute, 0, final(self)@, final(db)@, effects_view(r@)),
    {
        let ids: Vec<i64> = vec![self.right_item];
        let base = self.data_dir.clone();
        let ghost s0 = db@;
        let res = db.batch_to_absolute_paths(ids.as_slice(), base.as_str());
        let report = convert_report(res, " 个项目");
        let cid = self.current;
        self.relist(db, cid);
        let r = two(report, Effect::ShowItems);
        proof {
            assert(ids@ =~= seq![old(self)@.right_item]);
            let w = choose|outcomes: Seq<Option<Seq<char>>>|
                {
                    let (st, count, failed) = #[trigger] absolute_prefix(s0, ids@, base@, outcomes, ids@.len());
                    &&& outcomes.len() == ids@.len()
                    &&& outcomes_ok(outcomes)
                    &&& db@ == st
                    &&& count <= ids@.len()
                    &&& failed ==> res == Err::<usize, DbError>(DbError::NotFound)
                    &&& !failed ==> res == Ok::<usize, DbError>(count as usize)
                };
            let _ = absolute_prefix(s0, seq![old(self)@.right_item], old(self)@.data_dir, w, 1);
        }
        r
    }

    fn batch_delete(&mut self) -> (r: Vec<Effect>)
        ensures
            menu_step(old(self)@, arbitrary(), MenuCommand::BatchDelete, 0, final(self)@, arbitrary(), effects_view(r@)),
    {
        let ids = selected_row_ids(&self.shown);
        if ids.len() == 0 {
            return one(Effect::Info(text("提示"), text("请先选择项目")));
        }
        let msg = count_text("确定删除选中的 ", ids.len(), " 个项目吗？");
        let cid = self.current;
        self.ask(Pending::BatchDelete(cid), ids, Effect::AskConfirm(text("批量删除"), msg))
    }

    fn batch_convert(&mut self, db: &mut Database, absolute: bool) -> (r: Vec<Effect>)
        requires
            old(db).wf(),
        ensures
            final(db).wf(),
            menu_step(
                old(self)@,
                old(db)@,
                if absolute {
                    MenuCommand::BatchAbsolute
                } else {
                    MenuCommand::BatchRelative
                },
                0,
                final(self)@,
                final(db)@,
                effects_view(r@),
            ),
    {
        let ids = selected_row_ids(&self.shown);
        if ids.len() == 0 {
            return one(Effect::Info(text("提示"), text("请先选择项目")));
        }
        let base = self.data_dir.clone();
        if absolute {
            let ghost s0 = db@;
            let res = db.batch_to_absolute_paths(ids.as_slice(), base.as_str());
            let r = one(convert_report(res, " 个项目为绝对路径"));
            proof {
                let w = choose|outcomes: Seq<Option<Seq<char>>>|
                    {
                        let (st, count, failed) = #[trigger] absolute_prefix(s0, ids@, base@, outcomes, ids@.len());
                        &&& outcomes.len() == ids@.len()
                        &&& outcomes_ok(outcomes)
                        &&& db@ == st
                        &&& count <= ids@.len()
                        &&& failed ==> res == Err::<usize, DbError>(DbError::NotFound)
                        &&& !failed ==> res == Ok::<usize, DbError>(count as usize)
                    };
                let _ = absolute_prefix(s0, ids@, base@, w, ids@.len());
            }
            r
        } else {
            let res = db.batch_to_relative_paths(ids.as_slice(), base.as_str());
            one(convert_report(res, " 个项目为相对路径"))
        }
    }

    fn batch_refresh_icon(&mut self, db: &Database) -> (r: Vec<Effect>)
        requires
            db.wf(),
        ensures
            menu_step(old(self)@, db@, MenuCommand::BatchRefreshIcon, 0, final(self)@, db@, effects_view(r@)),
    {
        let ids = selected_row_ids(&self.shown);
        if ids.len() == 0 {
            return one(Effect::Info(text("提示"), text("请先选择项目")));
        }
        let mut tids: Vec<i64> = Vec::new();
        let mut targets: Vec<String> = Vec::new();
        let mut k: usize = 0;
        while k < ids.len()
            invariant
                k <= ids@.len(),
                db.wf(),
                targets_of(db@, ids@.take(k as int)) == (tids@, texts_view(targets@)),
            decreases ids@.len() - k,
        {
            let id = ids[k];
            proof {
                assert(ids@.take(k + 1).drop_last() =~= ids@.take(k as int));
                assert(ids@.take(k + 1).last() == id);
            }
            match db.get_item_target(id) {
                Some(t) => {
                    let ghost old_targets = targets@;
                    tids.push(id);
                    targets.push(t);
                    assert(texts_view(targets@) =~= texts_view(old_targets).push(targets@[targets@.len() - 1]@));
                },
                None => {},
            }
            k = k + 1;
        }
        proof {
            assert(ids@.take(ids@.len() as int) =~= ids@);
        }
        let cid = self.current;
        self.ask(Pending::Icons(true, cid), tids, Effect::AskIcons(targets))
    }

    fn icons_reply(&mut self, db: &mut Database, icons: Vec<Option<String>>) -> (r: Vec<Effect>)
        requires
            old(db).wf(),
        ensures
            final(db).wf(),
            icons_reply_step(old(self)@, old(db)@, opt_texts_view(icons@), final(self)@, final(db)@, effects_view(r@)),
    {
        match self.pending {
            Pending::Icons(batch, cid) => {
                let ids = self.pending_ids.clone();
                let ghost iv = opt_texts_view(icons@);
                let ghost s0 = db@;
                assert(ids@ =~= old(self)@.pending_ids);
                self.go_idle();
                let mut found: usize = 0;
                let mut k: usize = 0;
                while k < ids.len()
                    invariant
                        k <= ids@.len(),
                        db.wf(),
                        found <= k,
                        iv == opt_texts_view(icons@),
                        icons_applied(s0, ids@, iv, k as nat) == (db@, found as nat),
                    decreases ids@.len() - k,
                {
                    if k < icons.len() {
                        match &icons[k] {
                            Some(icon) => {
                                assert(iv[k as int] == Some(icon@));
                                let _ = db.update_item_icon(ids[k], icon.as_str());
                                found = found + 1;
                            },
                            None => {
                                assert(iv[k as int] is None);
                            },
                        }
                    }
                    k = k + 1;
                }
                proof {
                    lemma_icons_applied_none(s0, ids@, iv, ids@.len());
                }
                if batch {
                    self.relist(db, cid);
                    two(Effect::ShowItems, Effect::Info(text("完成"), count_text("已刷新 ", found, " 个项目图标")))
                } else if found > 0 {
                    self.relist(db, cid);
                    one(Effect::ShowItems)
                } else {
                    none()
                }
            },
            _ => none(),
        }
    }

    fn batch_target(&mut self, db: &Database, copy: bool) -> (r: Vec<Effect>)
        requires
            db.wf(),
        ensures
            menu_step(
                old(self)@,
                db@,
                if copy {
                    MenuCommand::BatchCopy
                } else {
                    MenuCommand::BatchMove
                },
                0,
                final(self)@,
                db@,
                effects_view(r@),
            ),
    {
        let ids = selected_row_ids(&self.shown);
        if ids.len() == 0 {
            return one(Effect::Info(text("提示"), text("请先选择项目")));
        }
        let all = db.list_all_classifications();
        let mut prompt = String::from_str("请输入目标分类ID:\n");
        let lines = class_lines_text(&all);
        prompt.append(lines.as_str());
        let cid = self.current;
        let r = self.ask(Pending::BatchTarget(copy, cid), ids, Effect::AskText(text("选择目标分类"), prompt));
        proof {
            assert(is_sorted_classification_listing(classification_views(all@), db@.classifications));
        }
        r
    }

    fn run_command(&mut self, db: &mut Database, cmd: MenuCommand, now: i64) -> (r: Vec<Effect>)
        requires
            old(db).wf(),
        ensures
            final(db).wf(),
            menu_step(old(self)@, old(db)@, cmd, now, final(self)@, final(db)@, effects_view(r@)),
    {
        match cmd {
            MenuCommand::NewItem => {
                let cid = self.current;
                self.ask(Pending::ItemFile(cid), Vec::new(), Effect::AskFile)
            },
            MenuCommand::BatchMode => {
                self.batch = true;
                two(Effect::BatchMode(true), Effect::HideMenu)
            },
            MenuCommand::LockItemOrder => self.lock_item_order(db),
            MenuCommand::ItemSettings => one(Effect::Info(text("项目设置"), text("项目设置弹窗（待实现）"))),
            MenuCommand::NewClassification => self.ask(
                Pending::ClassificationName,
                Vec::new(),
                Effect::AskText(text("新建分类"), text("请输入分类名称")),
            ),
            MenuCommand::LockClassificationOrder => one(
                Effect::Info(text("锁定分类顺序"), text("分类顺序锁定功能（待完善）")),
            ),
            MenuCommand::RenameClassification => {
                let cid = self.right_class;
                self.ask(
                    Pending::RenameClassification(cid),
                    Vec::new(),
                    Effect::AskText(text("重命名分类"), text("请输入新名称")),
                )
            },
            MenuCommand::AddChildClassification => {
                let cid = self.right_class;
                self.ask(
                    Pending::ChildName(cid),
                    Vec::new(),
                    Effect::AskText(text("新建子分类"), text("请输入子分类名称")),
                )
            },
            MenuCommand::DeleteClassification => {
                let cid = self.right_class;
                self.ask(
                    Pending::DeleteClassification(cid),
                    Vec::new(),
                    Effect::AskConfirm(text("删除分类"), text("删除分类将同时删除其下所有项目，确定继续吗？")),
                )
            },
            MenuCommand::OpenItem => {
                let id = self.right_item;
                self.open_by_id(db, id, now)
            },
            MenuCommand::OpenLocation => match db.get_item_target(self.right_item) {
                Some(t) => one(Effect::OpenLocation(t)),
                None => none(),
            },
            MenuCommand::RenameItem => {
                let id = self.right_item;
                let cid = self.current;
                self.ask(
                    Pending::RenameItem(id, cid),
                    Vec::new(),
                    Effect::AskText(text("重命名项目"), text("请输入新名称")),
                )
            },
            MenuCommand::CopyPath => match db.get_item_target(self.right_item) {
                Some(t) => one(Effect::CopyText(t)),
                None => none(),
            },
            MenuCommand::RefreshIcon => self.refresh_icon(db),
            MenuCommand::ToRelative => self.to_relative(db),
            MenuCommand::ToAbsolute => self.to_absolute(db),
            MenuCommand::DeleteItem => {
                let id = self.right_item;
                let cid = self.current;
                self.ask(
                    Pending::DeleteItem(id, cid),
                    Vec::new(),
                    Effect::AskConfirm(text("删除项目"), text("确定删除该项目吗？")),
                )
            },
            MenuCommand::SelectAll => {
                self.shown = listed_rows(db, self.current, true);
                one(Effect::ShowItems)
            },
            MenuCommand::BatchDelete => self.batch_delete(),
            MenuCommand::BatchRelative => self.batch_convert(db, false),
            MenuCommand::BatchAbsolute => self.batch_convert(db, true),
            MenuCommand::BatchRefreshIcon => self.batch_refresh_icon(db),
            MenuCommand::BatchMove => self.batch_target(db, false),
            MenuCommand::BatchCopy => self.batch_target(db, true),
            MenuCommand::BatchCancel => {
                self.batch = false;
                let cid = self.current;
                self.relist(db, cid);
                two(Effect::BatchMode(false), Effect::ShowItems)
            },
            MenuCommand::Unknown => none(),
        }
    }

    fn file_reply(&mut self, db: &mut Database, o: Option<String>) -> (r: Vec<Effect>)
        requires
            old(db).wf(),
        ensures
            final(db).wf(),
            file_reply_step(old(self)@, old(db)@, opt_text(o), final(self)@, final(db)@, effects_view(r@)),
    {
        match self.pending {
            Pending::ItemFile(cid) => {
                self.go_idle();
                match o {
                    Some(p) => self.add_path(db, cid, p.as_str()),
                    None => none(),
                }
            },
            _ => none(),
        }
    }

    fn text_reply(&mut self, db: &mut Database, o: Option<String>) -> (r: Vec<Effect>)
        requires
            old(db).wf(),
        ensures
            final(db).wf(),
            text_reply_step(old(self)@, old(db)@, opt_text(o), final(self)@, final(db)@, effects_view(r@)),
    {
        match self.pending {
            Pending::ClassificationName => {
                self.go_idle();
                match o {
                    None => none(),
                    Some(name) => self.new_parent(db, name.as_str()),
                }
            },
            Pending::RenameClassification(cid) => {
                self.go_idle();
                match o {
                    None => none(),
                    Some(name) => {
                        db.rename_classification(cid, name.as_str());
                        one(Effect::ShowClassifications(cid))
                    },
                }
            },
            Pending::ChildName(cid) => {
                self.go_idle();
                match o {
                    None => none(),
                    Some(name) => self.new_child(db, cid, name.as_str()),
                }
            },
            Pending::RenameItem(id, cid) => {
                self.go_idle();
                match o {
                    None => none(),
                    Some(name) => {
                        db.rename_item(id, name.as_str());
                        self.relist(db, cid);
                        one(Effect::ShowItems)
                    },
                }
            },
            Pending::BatchTarget(copy, cid) => {
                let ids = self.pending_ids.clone();
                self.go_idle();
                match o {
                    None => none(),
                    Some(t) => self.move_or_copy(db, ids, copy, cid, t.as_str()),
                }
            },
            _ => none(),
        }
    }

    fn new_parent(&mut self, db: &mut Database, name: &str) -> (r: Vec<Effect>)
        requires
            old(db).wf(),
            old(self)@.pending == Pending::Nothing,
        ensures
            final(db).wf(),
            ({
                let c = old(self)@;
                let s = old(db)@;
                let m = max_classification_order_of(s, None);
                if m == i64::MAX || s.next_classification_id == i64::MAX {
                    unchanged(c, s, final(self)@, final(db)@, effects_view(r@))
                } else {
                    &&& final(db)@ == with_new_classification(s, None, name@, (m + 1) as i64)
                    &&& final(self)@ == (ControllerView { shown: Seq::empty(), ..c })
                    &&& effects_view(r@) == seq![
                        EffectView::ShowClassifications(s.next_classification_id as i64),
                        EffectView::ShowItems,
                        EffectView::Status("0 个项目"@),
                    ]
                }
            }),
    {
        let m = db.max_parent_classification_order();
        if m == i64::MAX {
            return none();
        }
        match db.insert_parent_classification(name) {
            Ok(id) => {
                self.shown = Vec::new();
                proof {
                    assert(rows_view(self.shown@) =~= Seq::<(ItemView, bool, bool)>::empty());
                    db.lemma_state_wf();
                }
                three(Effect::ShowClassifications(id), Effect::ShowItems, Effect::Status(text("0 个项目")))
            },
            Err(_) => none(),
        }
    }

    fn new_child(&mut self, db: &mut Database, cid: i64, name: &str) -> (r: Vec<Effect>)
        requires
            old(db).wf(),
        ensures
            final(db).wf(),
            final(self)@ == old(self)@,
            ({
                let s = old(db)@;
                let m = max_classification_order_of(s, Some(cid));
                if m == i64::MAX || s.next_classification_id == i64::MAX {
                    final(db)@ == s && effects_view(r@) == Seq::<EffectView>::empty()
                } else {
                    &&& final(db)@ == with_new_classification(s, Some(cid), name@, (m + 1) as i64)
                    &&& effects_view(r@) == seq![EffectView::Info("成功"@, "子分类已创建"@)]
                }
            }),
    {
        let m = db.max_child_classification_order(cid);
        if m == i64::MAX {
            return none();
        }
        match db.insert_child_classification(cid, name) {
            Ok(_) => {
                proof {
                    db.lemma_state_wf();
                }
                one(Effect::Info(text("成功"), text("子分类已创建")))
            },
            Err(_) => none(),
        }
    }

    fn move_or_copy(&mut self, db: &mut Database, ids: Vec<i64>, copy: bool, cid: i64, t: &str) -> (r: Vec<Effect>)
        requires
            old(db).wf(),
        ensures
            final(db).wf(),
            ({
                let c = old(self)@;
                let s = old(db)@;
                let c2 = final(self)@;
                let s2 = final(db)@;
                let e = effects_view(r@);
                match parse_i64_seq(trim_seq(t@)) {
                    None => unchanged(c, s, c2, s2, e),
                    Some(target) => if max_item_order_of(s, target) + ids@.len() > i64::MAX {
                        unchanged(c, s, c2, s2, e)
                    } else if !copy {
                        &&& s2 == moved_items(s, ids@, target)
                        &&& refreshed(ControllerView { batch: false, ..c }, s2, cid, c2)
                        &&& e == seq![
                            EffectView::ShowItems,
                            EffectView::BatchMode(false),
                            EffectView::Info("完成"@, "batch-move 操作成功"@),
                        ]
                    } else {
                        match copied_items(s, ids@, target) {
                            Some(st) => {
                                &&& s2 == st
                                &&& refreshed(ControllerView { batch: false, ..c }, s2, cid, c2)
                                &&& e == seq![
                                    EffectView::ShowItems,
                                    EffectView::BatchMode(false),
                                    EffectView::Info("完成"@, "batch-copy 操作成功"@),
                                ]
                            },
                            None => {
                                &&& s2 == s
                                &&& c2 == c
                                &&& e == seq![
                                    EffectView::Error(
                                        "错误"@,
                                        "操作失败: "@ + db_error_text(DbError::IdSpaceExhausted),
                                    ),
                                ]
                            },
                        }
                    },
                }
            }),
    {
        let trimmed = string_from_chars(&trim_chars(&str_chars(t)));
        let target = match parse_i64(trimmed.as_str()) {
            None => {
                return none();
            },
            Some(x) => x,
        };
        let m = db.max_item_order(target);
        if m as i128 + ids.len() as i128 > i64::MAX as i128 {
            return none();
        }
        if !copy {
            db.batch_move_items(ids.as_slice(), target);
            self.batch = false;
            self.relist(db, cid);
            three(Effect::ShowItems, Effect::BatchMode(false), Effect::Info(text("完成"), text("batch-move 操作成功")))
        } else {
            match db.batch_copy_items(ids.as_slice(), target) {
                Ok(()) => {
                    self.batch = false;
                    self.relist(db, cid);
                    three(Effect::ShowItems, Effect::BatchMode(false), Effect::Info(text("完成"), text("batch-copy 操作成功")))
                },
                Err(err) => {
                    let mut msg = String::from_str("操作失败: ");
                    let t = err.message();
                    msg.append(t.as_str());
                    one(Effect::Error(text("错误"), msg))
                },
            }
        }
    }

    fn confirm_reply(&mut self, db: &mut Database, yes: bool) -> (r: Vec<Effect>)
        requires
            old(db).wf(),
        ensures
            final(db).wf(),
            confirm_reply_step(old(self)@, old(db)@, yes, final(self)@, final(db)@, effects_view(r@)),
    {
        match self.pending {
            Pending::DeleteClassification(cid) => {
                self.go_idle();
                if !yes {
                    return none();
                }
                db.delete_classification(cid);
                let list = db.list_parent_classifications();
                let first: i64 = if list.len() == 0 {
                    0
                } else {
                    list[0].id
                };
                self.relist(db, first);
                let status = totals_text(list.len(), self.shown.len());
                let r = three(Effect::ShowClassifications(first), Effect::ShowItems, Effect::Status(status));
                proof {
                    let lv = classification_views(list@);
                    if list@.len() > 0 {
                        assert(lv[0] == list@[0]@);
                    }
                    assert(self@.shown.len() == self.shown@.len());
                    assert(is_sorted_classification_listing(lv, parent_classifications(db@)));
                }
                r
            },
            Pending::DeleteItem(id, cid) => {
                self.go_idle();
                if !yes {
                    return none();
                }
                db.delete_item(id);
                self.relist(db, cid);
                let status = count_text("共 ", self.shown.len(), " 个项目");
                proof {
                    assert(self@.shown.len() == self.shown@.len());
                }
                two(Effect::ShowItems, Effect::Status(status))
            },
            Pending::BatchDelete(cid) => {
                let ids = self.pending_ids.clone();
                self.go_idle();
                if !yes {
                    return none();
                }
                db.batch_delete_items(ids.as_slice());
                self.batch = false;
                self.relist(db, cid);
                two(Effect::ShowItems, Effect::BatchMode(false))
            },
            _ => none(),
        }
    }
}
} // verus!
