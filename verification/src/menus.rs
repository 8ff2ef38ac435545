//! The context menus of the launcher window: which entries each menu
//! offers, and which command a chosen entry stands for.

use vstd::prelude::*;

verus! {

/// The context menus of the window.
#[derive(Clone, Copy, Debug, PartialEq, Eq)]
pub enum MenuKind {
    /// On an item.
    Item,
    /// On a classification tab; `true` when the classification has child
    /// classifications.
    ClassificationItem(bool),
    /// On the empty part of the classification bar.
    ClassificationArea,
    /// On the empty part of the item area (outside batch mode).
    ItemArea,
    /// On the item area in batch mode.
    Batch,
}

/// The source name a menu reports its choices under.
pub open spec fn menu_source_spec(k: MenuKind) -> Seq<char> {
    match k {
        MenuKind::Item => "item"@,
        MenuKind::ClassificationItem(_) => "classification-item"@,
        MenuKind::ClassificationArea => "classification-area"@,
        MenuKind::ItemArea => "item-area"@,
        MenuKind::Batch => "batch"@,
    }
}

/// The source name of menu `k`.
pub fn menu_source(k: MenuKind) -> (r: &'static str)
    ensures
        r@ == menu_source_spec(k),
{
    match k {
        MenuKind::Item => "item",
        MenuKind::ClassificationItem(_) => "classification-item",
        MenuKind::ClassificationArea => "classification-area",
        MenuKind::ItemArea => "item-area",
        MenuKind::Batch => "batch",
    }
}

/// An entry of a context menu; a separator has empty texts.
#[derive(Debug)]
pub struct MenuEntry {
    pub id: String,
    pub label: String,
    pub icon: String,
    pub separator: bool,
    pub has_submenu: bool,
    pub enabled: bool,
}

pub struct MenuEntryView {
    pub id: Seq<char>,
    pub label: Seq<char>,
    pub icon: Seq<char>,
    pub separator: bool,
    pub has_submenu: bool,
    pub enabled: bool,
}

impl View for MenuEntry {
    type V = MenuEntryView;

    open spec fn view(&self) -> MenuEntryView {
        MenuEntryView {
            id: self.id@,
            label: self.label@,
            icon: self.icon@,
            separator: self.separator,
            has_submenu: self.has_submenu,
            enabled: self.enabled,
        }
    }
}

/// An enabled entry.
pub open spec fn entry_spec(id: Seq<char>, label: Seq<char>, icon: Seq<char>, has_submenu: bool) -> MenuEntryView {
    MenuEntryView { id, label, icon, separator: false, has_submenu, enabled: true }
}

/// A separator line.
pub open spec fn separator_spec() -> MenuEntryView {
    MenuEntryView {
        id: Seq::empty(),
        label: Seq::empty(),
        icon: Seq::empty(),
        separator: true,
        has_submenu: false,
        enabled: true,
    }
}

/// The entries of menu `k`, top to bottom.
pub open spec fn menu_entries_spec(k: MenuKind) -> Seq<MenuEntryView> {
    match k {
        MenuKind::Item => seq![
            entry_spec("open"@, "打开"@, "▶"@, false),
            entry_spec("open-location"@, "打开文件位置"@, "📁"@, false),
            separator_spec(),
            entry_spec("rename"@, "重命名"@, "✏"@, false),
            entry_spec("copy-path"@, "复制路径"@, "📋"@, false),
            entry_spec("refresh-icon"@, "刷新图标"@, "🔄"@, false),
            separator_spec(),
            entry_spec("to-relative"@, "转为相对路径"@, "↻"@, false),
            entry_spec("to-absolute"@, "转为绝对路径"@, "↻"@, false),
            separator_spec(),
            entry_spec("delete"@, "删除"@, "🗑"@, false),
        ],
        MenuKind::ClassificationItem(with_children) => if with_children {
            seq![
                entry_spec("rename"@, "重命名"@, "✏"@, false),
                entry_spec("add-child"@, "新建子分类"@, "+"@, false),
                separator_spec(),
                entry_spec("delete"@, "删除"@, "🗑"@, false),
            ]
        } else {
            seq![
                entry_spec("rename"@, "重命名"@, "✏"@, false),
                separator_spec(),
                entry_spec("delete"@, "删除"@, "🗑"@, false),
            ]
        },
        MenuKind::ClassificationArea => seq![
            entry_spec("new-classification"@, "新建分类"@, "+"@, false),
            separator_spec(),
            entry_spec("lock-order"@, "锁定分类顺序"@, "🔒"@, false),
        ],
        MenuKind::ItemArea => seq![
            entry_spec("new-item"@, "新建项目"@, "+"@, false),
            entry_spec("item-settings"@, "项目设置"@, "⚙"@, false),
            separator_spec(),
            entry_spec("lock-item-order"@, "锁定项目顺序"@, "🔒"@, false),
            entry_spec("batch-mode"@, "批量操作"@, "☰"@, false),
        ],
        MenuKind::Batch => seq![
            entry_spec("select-all"@, "全选"@, "☰"@, false),
            separator_spec(),
            entry_spec("batch-move"@, "批量移动到"@, "↪"@, true),
            entry_spec("batch-copy"@, "批量复制到"@, "📋"@, true),
            separator_spec(),
            entry_spec("batch-rel-path"@, "批量转为相对路径"@, "↻"@, false),
            entry_spec("batch-abs-path"@, "批量转为绝对路径"@, "↻"@, false),
            separator_spec(),
            entry_spec("batch-refresh-icon"@, "批量刷新图标"@, "🔄"@, false),
            separator_spec(),
            entry_spec("batch-delete"@, "批量删除"@, "🗑"@, false),
            separator_spec(),
            entry_spec("batch-cancel"@, "取消批量操作"@, "✕"@, false),
        ],
    }
}

fn entry(id: &str, label: &str, icon: &str, has_submenu: bool) -> (r: MenuEntry)
    ensures
        r@ == entry_spec(id@, label@, icon@, has_submenu),
{
    MenuEntry {
        id: String::from_str(id),
        label: String::from_str(label),
        icon: String::from_str(icon),
        separator: false,
        has_submenu,
        enabled: true,
    }
}

fn separator() -> (r: MenuEntry)
    ensures
        r@ == separator_spec(),
{
    MenuEntry {
        id: String::new(),
        label: String::new(),
        icon: String::new(),
        separator: true,
        has_submenu: false,
        enabled: true,
    }
}

pub open spec fn entries_view(v: Seq<MenuEntry>) -> Seq<MenuEntryView> {
    v.map_values(|e: MenuEntry| e@)
}

/// The entries of menu `k`.
pub fn menu_entries(k: MenuKind) -> (r: Vec<MenuEntry>)
    ensures
        entries_view(r@) == menu_entries_spec(k),
{
    let mut v: Vec<MenuEntry> = Vec::new();
    match k {
        MenuKind::Item => {
            v.push(entry("open", "打开", "▶", false));
            v.push(entry("open-location", "打开文件位置", "📁", false));
            v.push(separator());
            v.push(entry("rename", "重命名", "✏", false));
            v.push(entry("copy-path", "复制路径", "📋", false));
            v.push(entry("refresh-icon", "刷新图标", "🔄", false));
            v.push(separator());
            v.push(entry("to-relative", "转为相对路径", "↻", false));
            v.push(entry("to-absolute", "转为绝对路径", "↻", false));
            v.push(separator());
            v.push(entry("delete", "删除", "🗑", false));
        },
        MenuKind::ClassificationItem(with_children) => {
            v.push(entry("rename", "重命名", "✏", false));
            if with_children {
                v.push(entry("add-child", "新建子分类", "+", false));
            }
            v.push(separator());
            v.push(entry("delete", "删除", "🗑", false));
        },
        MenuKind::ClassificationArea => {
            v.push(entry("new-classification", "新建分类", "+", false));
            v.push(separator());
            v.push(entry("lock-order", "锁定分类顺序", "🔒", false));
        },
        MenuKind::ItemArea => {
            v.push(entry("new-item", "新建项目", "+", false));
            v.push(entry("item-settings", "项目设置", "⚙", false));
            v.push(separator());
            v.push(entry("lock-item-order", "锁定项目顺序", "🔒", false));
            v.push(entry("batch-mode", "批量操作", "☰", false));
        },
        MenuKind::Batch => {
            v.push(entry("select-all", "全选", "☰", false));
            v.push(separator());
            v.push(entry("batch-move", "批量移动到", "↪", true));
            v.push(entry("batch-copy", "批量复制到", "📋", true));
            v.push(separator());
            v.push(entry("batch-rel-path", "批量转为相对路径", "↻", false));
            v.push(entry("batch-abs-path", "批量转为绝对路径", "↻", false));
            v.push(separator());
            v.push(entry("batch-refresh-icon", "批量刷新图标", "🔄", false));
            v.push(separator());
            v.push(entry("batch-delete", "批量删除", "🗑", false));
            v.push(separator());
            v.push(entry("batch-cancel", "取消批量操作", "✕", false));
        },
    }
    assert(entries_view(v@) =~= menu_entries_spec(k));
    v
}

/// What a chosen menu entry asks for.
#[derive(Clone, Copy, Debug, PartialEq, Eq)]
pub enum MenuCommand {
    NewItem,
    BatchMode,
    LockItemOrder,
    ItemSettings,
    NewClassification,
    LockClassificationOrder,
    RenameClassification,
    AddChildClassification,
    DeleteClassification,
    OpenItem,
    OpenLocation,
    RenameItem,
    CopyPath,
    RefreshIcon,
    ToRelative,
    ToAbsolute,
    DeleteItem,
    SelectAll,
    BatchDelete,
    BatchRelative,
    BatchAbsolute,
    BatchRefreshIcon,
    BatchMove,
    BatchCopy,
    BatchCancel,
    /// Not an entry of any menu.
    Unknown,
}

/// The command of entry `action` of the menu named `source`.
pub open spec fn menu_command_spec(source: Seq<char>, action: Seq<char>) -> MenuCommand {
    if source == "item-area"@ {
        if action == "new-item"@ {
            MenuCommand::NewItem
        } else if action == "batch-mode"@ {
            MenuCommand::BatchMode
        } else if action == "lock-item-order"@ {
            MenuCommand::LockItemOrder
        } else if action == "item-settings"@ {
            MenuCommand::ItemSettings
        } else {
            MenuCommand::Unknown
        }
    } else if source == "classification-area"@ {
        if action == "new-classification"@ {
            MenuCommand::NewClassification
        } else if action == "lock-order"@ {
            MenuCommand::LockClassificationOrder
        } else {
            MenuCommand::Unknown
        }
    } else if source == "classification-item"@ {
        if action == "rename"@ {
            MenuCommand::RenameClassification
        } else if action == "add-child"@ {
            MenuCommand::AddChildClassification
        } else if action == "delete"@ {
            MenuCommand::DeleteClassification
        } else {
            MenuCommand::Unknown
        }
    } else if source == "item"@ {
        if action == "open"@ {
            MenuCommand::OpenItem
        } else if action == "open-location"@ {
            MenuCommand::OpenLocation
        } else if action == "rename"@ {
            MenuCommand::RenameItem
        } else if action == "copy-path"@ {
            MenuCommand::CopyPath
        } else if action == "refresh-icon"@ {
            MenuCommand::RefreshIcon
        } else if action == "to-relative"@ {
            MenuCommand::ToRelative
        } else if action == "to-absolute"@ {
            MenuCommand::ToAbsolute
        } else if action == "delete"@ {
            MenuCommand::DeleteItem
        } else {
            MenuCommand::Unknown
        }
    } else if source == "batch"@ {
        if action == "select-all"@ {
            MenuCommand::SelectAll
        } else if action == "batch-delete"@ {
            MenuCommand::BatchDelete
        } else if action == "batch-rel-path"@ {
            MenuCommand::BatchRelative
        } else if action == "batch-abs-path"@ {
            MenuCommand::BatchAbsolute
        } else if action == "batch-refresh-icon"@ {
            MenuCommand::BatchRefreshIcon
        } else if action == "batch-move"@ {
            MenuCommand::BatchMove
        } else if action == "batch-copy"@ {
            MenuCommand::BatchCopy
        } else if action == "batch-cancel"@ {
            MenuCommand::BatchCancel
        } else {
            MenuCommand::Unknown
        }
    } else {
        MenuCommand::Unknown
    }
}

/// The menu entry a command stands for: the source name of its menu and
/// the entry's id (the unknown command stands for none; empty texts).
pub open spec fn command_entry(cmd: MenuCommand) -> (Seq<char>, Seq<char>) {
    match cmd {
        MenuCommand::NewItem => ("item-area"@, "new-item"@),
        MenuCommand::BatchMode => ("item-area"@, "batch-mode"@),
        MenuCommand::LockItemOrder => ("item-area"@, "lock-item-order"@),
        MenuCommand::ItemSettings => ("item-area"@, "item-settings"@),
        MenuCommand::NewClassification => ("classification-area"@, "new-classification"@),
        MenuCommand::LockClassificationOrder => ("classification-area"@, "lock-order"@),
        MenuCommand::RenameClassification => ("classification-item"@, "rename"@),
        MenuCommand::AddChildClassification => ("classification-item"@, "add-child"@),
        MenuCommand::DeleteClassification => ("classification-item"@, "delete"@),
        MenuCommand::OpenItem => ("item"@, "open"@),
        MenuCommand::OpenLocation => ("item"@, "open-location"@),
        MenuCommand::RenameItem => ("item"@, "rename"@),
        MenuCommand::CopyPath => ("item"@, "copy-path"@),
        MenuCommand::RefreshIcon => ("item"@, "refresh-icon"@),
        MenuCommand::ToRelative => ("item"@, "to-relative"@),
        MenuCommand::ToAbsolute => ("item"@, "to-absolute"@),
        MenuCommand::DeleteItem => ("item"@, "delete"@),
        MenuCommand::SelectAll => ("batch"@, "select-all"@),
        MenuCommand::BatchDelete => ("batch"@, "batch-delete"@),
        MenuCommand::BatchRelative => ("batch"@, "batch-rel-path"@),
        MenuCommand::BatchAbsolute => ("batch"@, "batch-abs-path"@),
        MenuCommand::BatchRefreshIcon => ("batch"@, "batch-refresh-icon"@),
        MenuCommand::BatchMove => ("batch"@, "batch-move"@),
        MenuCommand::BatchCopy => ("batch"@, "batch-copy"@),
        MenuCommand::BatchCancel => ("batch"@, "batch-cancel"@),
        MenuCommand::Unknown => (Seq::empty(), Seq::empty()),
    }
}

/// `a` and `b` hold the same text.
pub fn same_text(a: &str, b: &str) -> (r: bool)
    ensures
        r == (a@ == b@),
{
    String::from_str(a) == String::from_str(b)
}

/// The command of entry `action` of the menu named `source`.
pub fn menu_command(source: &str, action: &str) -> (r: MenuCommand)
    ensures
        r == menu_command_spec(source@, action@),
        r != MenuCommand::Unknown ==> command_entry(r) == (source@, action@),
{
    if same_text(source, "item-area") {
        if same_text(action, "new-item") {
            MenuCommand::NewItem
        } else if same_text(action, "batch-mode") {
            MenuCommand::BatchMode
        } else if same_text(action, "lock-item-order") {
            MenuCommand::LockItemOrder
        } else if same_text(action, "item-settings") {
            MenuCommand::ItemSettings
        } else {
            MenuCommand::Unknown
        }
    } else if same_text(source, "classification-area") {
        if same_text(action, "new-classification") {
            MenuCommand::NewClassification
        } else if same_text(action, "lock-order") {
            MenuCommand::LockClassificationOrder
        } else {
            MenuCommand::Unknown
        }
    } else if same_text(source, "classification-item") {
        if same_text(action, "rename") {
            MenuCommand::RenameClassification
        } else if same_text(action, "add-child") {
            MenuCommand::AddChildClassification
        } else if same_text(action, "delete") {
            MenuCommand::DeleteClassification
        } else {
            MenuCommand::Unknown
        }
    } else if same_text(source, "item") {
        if same_text(action, "open") {
            MenuCommand::OpenItem
        } else if same_text(action, "open-location") {
            MenuCommand::OpenLocation
        } else if same_text(action, "rename") {
            MenuCommand::RenameItem
        } else if same_text(action, "copy-path") {
            MenuCommand::CopyPath
        } else if same_text(action, "refresh-icon") {
            MenuCommand::RefreshIcon
        } else if same_text(action, "to-relative") {
            MenuCommand::ToRelative
        } else if same_text(action, "to-absolute") {
            MenuCommand::ToAbsolute
        } else if same_text(action, "delete") {
            MenuCommand::DeleteItem
        } else {
            MenuCommand::Unknown
        }
    } else if same_text(source, "batch") {
        if same_text(action, "select-all") {
            MenuCommand::SelectAll
        } else if same_text(action, "batch-delete") {
            MenuCommand::BatchDelete
        } else if same_text(action, "batch-rel-path") {
            MenuCommand::BatchRelative
        } else if same_text(action, "batch-abs-path") {
            MenuCommand::BatchAbsolute
        } else if same_text(action, "batch-refresh-icon") {
            MenuCommand::BatchRefreshIcon
        } else if same_text(action, "batch-move") {
            MenuCommand::BatchMove
        } else if same_text(action, "batch-copy") {
            MenuCommand::BatchCopy
        } else if same_text(action, "batch-cancel") {
            MenuCommand::BatchCancel
        } else {
            MenuCommand::Unknown
        }
    } else {
        MenuCommand::Unknown
    }
}

} // verus!
