//! Records held by the launcher: classifications (tabs that group items),
//! items (files, folders, URLs and other launch targets), and the JSON-stored
//! extra data attached to each.

use vstd::prelude::*;

verus! {

/// Kind of an item: a file.
pub const ITEM_KIND_FILE: i64 = 0;
/// Kind of an item: a folder.
pub const ITEM_KIND_FOLDER: i64 = 1;
/// Kind of an item: a web address.
pub const ITEM_KIND_URL: i64 = 2;
/// Kind of an item: a system entry.
pub const ITEM_KIND_SYSTEM: i64 = 3;
/// Kind of an item: a packaged (Appx) application.
pub const ITEM_KIND_APPX: i64 = 4;

/// Extra settings of a classification (stored as JSON next to the row).
#[derive(Debug)]
pub struct ClassificationData {
    pub icon: Option<String>,
    pub associate_folder_path: Option<String>,
    pub associate_folder_hidden_items: Option<String>,
    /// `default`, `tile` or `list`.
    pub item_layout: String,
    /// `default`, `initial`, `openNumber` or `lastOpen`.
    pub item_sort: String,
    pub item_column_number: Option<i64>,
    pub item_icon_size: Option<i64>,
    /// `default`, `file` or `folder`.
    pub item_show_only: String,
    /// Whether the order of the items is locked.
    pub fixed: bool,
    pub aggregate_item_count: i64,
    pub exclude_search: bool,
}

/// A classification: 0 ordinary, 1 linked folder, 2 aggregate.
#[derive(Debug)]
pub struct Classification {
    pub id: i64,
    pub parent_id: Option<i64>,
    pub name: String,
    pub kind: i64,
    pub data: ClassificationData,
    pub shortcut_key: Option<String>,
    pub global_shortcut_key: bool,
    pub order: i64,
    pub child_list: Vec<Classification>,
}

/// Extra settings of an item (stored as JSON next to the row).
#[derive(Debug)]
pub struct ItemData {
    pub start_location: Option<String>,
    pub target: Option<String>,
    pub params: Option<String>,
    pub run_as_admin: bool,
    pub icon: Option<String>,
    pub html_icon: Option<String>,
    pub remark: Option<String>,
    pub icon_background_color: bool,
    pub fixed_icon: bool,
    pub open_number: i64,
    pub last_open: i64,
    pub quick_search_last_open: i64,
    pub multi_items_time_interval: i64,
}

/// An item: 0 file, 1 folder, 2 URL, 3 system, 4 Appx, 5 multiple items.
#[derive(Debug)]
pub struct Item {
    pub id: i64,
    pub classification_id: i64,
    pub name: String,
    pub kind: i64,
    pub data: ItemData,
    pub shortcut_key: Option<String>,
    pub global_shortcut_key: bool,
    pub order: i64,
}

/// The text of an optional string.
pub open spec fn opt_text(o: Option<String>) -> Option<Seq<char>> {
    match o {
        Some(s) => Some(s@),
        None => None,
    }
}

/// Mathematical value of [`ClassificationData`]: strings as character sequences.
pub struct ClassificationDataView {
    pub icon: Option<Seq<char>>,
    pub associate_folder_path: Option<Seq<char>>,
    pub associate_folder_hidden_items: Option<Seq<char>>,
    pub item_layout: Seq<char>,
    pub item_sort: Seq<char>,
    pub item_column_number: Option<i64>,
    pub item_icon_size: Option<i64>,
    pub item_show_only: Seq<char>,
    pub fixed: bool,
    pub aggregate_item_count: i64,
    pub exclude_search: bool,
}

impl View for ClassificationData {
    type V = ClassificationDataView;

    open spec fn view(&self) -> ClassificationDataView {
        ClassificationDataView {
            icon: opt_text(self.icon),
            associate_folder_path: opt_text(self.associate_folder_path),
            associate_folder_hidden_items: opt_text(self.associate_folder_hidden_items),
            item_layout: self.item_layout@,
            item_sort: self.item_sort@,
            item_column_number: self.item_column_number,
            item_icon_size: self.item_icon_size,
            item_show_only: self.item_show_only@,
            fixed: self.fixed,
            aggregate_item_count: self.aggregate_item_count,
            exclude_search: self.exclude_search,
        }
    }
}

/// Mathematical value of a stored [`Classification`] row. The nested
/// `child_list` is not part of a stored row and is not part of the view.
pub struct ClassificationView {
    pub id: i64,
    pub parent_id: Option<i64>,
    pub name: Seq<char>,
    pub kind: i64,
    pub data: ClassificationDataView,
    pub shortcut_key: Option<Seq<char>>,
    pub global_shortcut_key: bool,
    pub order: i64,
}

impl View for Classification {
    type V = ClassificationView;

    open spec fn view(&self) -> ClassificationView {
        ClassificationView {
            id: self.id,
            parent_id: self.parent_id,
            name: self.name@,
            kind: self.kind,
            data: self.data@,
            shortcut_key: opt_text(self.shortcut_key),
            global_shortcut_key: self.global_shortcut_key,
            order: self.order,
        }
    }
}

/// Mathematical value of [`ItemData`]: strings as character sequences.
pub struct ItemDataView {
    pub start_location: Option<Seq<char>>,
    pub target: Option<Seq<char>>,
    pub params: Option<Seq<char>>,
    pub run_as_admin: bool,
    pub icon: Option<Seq<char>>,
    pub html_icon: Option<Seq<char>>,
    pub remark: Option<Seq<char>>,
    pub icon_background_color: bool,
    pub fixed_icon: bool,
    pub open_number: i64,
    pub last_open: i64,
    pub quick_search_last_open: i64,
    pub multi_items_time_interval: i64,
}

impl View for ItemData {
    type V = ItemDataView;

    open spec fn view(&self) -> ItemDataView {
        ItemDataView {
            start_location: opt_text(self.start_location),
            target: opt_text(self.target),
            params: opt_text(self.params),
            run_as_admin: self.run_as_admin,
            icon: opt_text(self.icon),
            html_icon: opt_text(self.html_icon),
            remark: opt_text(self.remark),
            icon_background_color: self.icon_background_color,
            fixed_icon: self.fixed_icon,
            open_number: self.open_number,
            last_open: self.last_open,
            quick_search_last_open: self.quick_search_last_open,
            multi_items_time_interval: self.multi_items_time_interval,
        }
    }
}

/// Mathematical value of an [`Item`].
pub struct ItemView {
    pub id: i64,
    pub classification_id: i64,
    pub name: Seq<char>,
    pub kind: i64,
    pub data: ItemDataView,
    pub shortcut_key: Option<Seq<char>>,
    pub global_shortcut_key: bool,
    pub order: i64,
}

impl View for Item {
    type V = ItemView;

    open spec fn view(&self) -> ItemView {
        ItemView {
            id: self.id,
            classification_id: self.classification_id,
            name: self.name@,
            kind: self.kind,
            data: self.data@,
            shortcut_key: opt_text(self.shortcut_key),
            global_shortcut_key: self.global_shortcut_key,
            order: self.order,
        }
    }
}

/// The views of a sequence of items.
pub open spec fn item_views(s: Seq<Item>) -> Seq<ItemView> {
    s.map_values(|x: Item| x@)
}

/// The views of a sequence of classifications.
pub open spec fn classification_views(s: Seq<Classification>) -> Seq<ClassificationView> {
    s.map_values(|x: Classification| x@)
}

impl Classification {
    /// A copy of the stored row of this classification, with no children.
    pub fn row_copy(&self) -> (r: Classification)
        ensures
            r@ == self@,
            r.child_list@.len() == 0,
    {
        Classification {
            id: self.id,
            parent_id: self.parent_id,
            name: self.name.clone(),
            kind: self.kind,
            data: self.data.clone(),
            shortcut_key: clone_opt_string(&self.shortcut_key),
            global_shortcut_key: self.global_shortcut_key,
            order: self.order,
            child_list: Vec::new(),
        }
    }

    /// A parent (top-level) classification has no parent id.
    pub fn is_parent(&self) -> (r: bool)
        ensures
            r == (self.parent_id is None),
    {
        self.parent_id.is_none()
    }
}

impl Item {
    pub fn is_file(&self) -> (r: bool)
        ensures
            r == (self.kind == ITEM_KIND_FILE),
    {
        self.kind == ITEM_KIND_FILE
    }

    pub fn is_folder(&self) -> (r: bool)
        ensures
            r == (self.kind == ITEM_KIND_FOLDER),
    {
        self.kind == ITEM_KIND_FOLDER
    }

    pub fn is_url(&self) -> (r: bool)
        ensures
            r == (self.kind == ITEM_KIND_URL),
    {
        self.kind == ITEM_KIND_URL
    }

    pub fn is_system(&self) -> (r: bool)
        ensures
            r == (self.kind == ITEM_KIND_SYSTEM),
    {
        self.kind == ITEM_KIND_SYSTEM
    }

    pub fn is_appx(&self) -> (r: bool)
        ensures
            r == (self.kind == ITEM_KIND_APPX),
    {
        self.kind == ITEM_KIND_APPX
    }
}

/// Copies an optional string; the copy equals the source.
pub fn clone_opt_string(o: &Option<String>) -> (r: Option<String>)
    ensures
        r == *o,
{
    match o {
        Some(s) => Some(s.clone()),
        None => None,
    }
}

impl Clone for ClassificationData {
    fn clone(&self) -> (r: Self)
        ensures
            r == *self,
    {
        ClassificationData {
            icon: clone_opt_string(&self.icon),
            associate_folder_path: clone_opt_string(&self.associate_folder_path),
            associate_folder_hidden_items: clone_opt_string(&self.associate_folder_hidden_items),
            item_layout: self.item_layout.clone(),
            item_sort: self.item_sort.clone(),
            item_column_number: self.item_column_number,
            item_icon_size: self.item_icon_size,
            item_show_only: self.item_show_only.clone(),
            fixed: self.fixed,
            aggregate_item_count: self.aggregate_item_count,
            exclude_search: self.exclude_search,
        }
    }
}

impl Clone for ItemData {
    fn clone(&self) -> (r: Self)
        ensures
            r == *self,
    {
        ItemData {
            start_location: clone_opt_string(&self.start_location),
            target: clone_opt_string(&self.target),
            params: clone_opt_string(&self.params),
            run_as_admin: self.run_as_admin,
            icon: clone_opt_string(&self.icon),
            html_icon: clone_opt_string(&self.html_icon),
            remark: clone_opt_string(&self.remark),
            icon_background_color: self.icon_background_color,
            fixed_icon: self.fixed_icon,
            open_number: self.open_number,
            last_open: self.last_open,
            quick_search_last_open: self.quick_search_last_open,
            multi_items_time_interval: self.multi_items_time_interval,
        }
    }
}

impl Clone for Item {
    fn clone(&self) -> (r: Self)
        ensures
            r == *self,
    {
        Item {
            id: self.id,
            classification_id: self.classification_id,
            name: self.name.clone(),
            kind: self.kind,
            data: self.data.clone(),
            shortcut_key: clone_opt_string(&self.shortcut_key),
            global_shortcut_key: self.global_shortcut_key,
            order: self.order,
        }
    }
}

impl Default for ClassificationData {
    fn default() -> (r: Self)
        ensures
            r.icon is None,
            r.associate_folder_path is None,
            r.associate_folder_hidden_items is None,
            r.item_layout@ == Seq::<char>::empty(),
            r.item_sort@ == Seq::<char>::empty(),
            r.item_column_number is None,
            r.item_icon_size is None,
            r.item_show_only@ == Seq::<char>::empty(),
            !r.fixed,
            r.aggregate_item_count == 0,
            !r.exclude_search,
    {
        ClassificationData {
            icon: None,
            associate_folder_path: None,
            associate_folder_hidden_items: None,
            item_layout: String::new(),
            item_sort: String::new(),
            item_column_number: None,
            item_icon_size: None,
            item_show_only: String::new(),
            fixed: false,
            aggregate_item_count: 0,
            exclude_search: false,
        }
    }
}


impl Default for ItemData {
    fn default() -> (r: Self)
        ensures
            r.start_location is None,
            r.target is None,
            r.params is None,
            !r.run_as_admin,
            r.icon is None,
            r.html_icon is None,
            r.remark is None,
            !r.icon_background_color,
            !r.fixed_icon,
            r.open_number == 0,
            r.last_open == 0,
            r.quick_search_last_open == 0,
            r.multi_items_time_interval == 0,
    {
        ItemData {
            start_location: None,
            target: None,
            params: None,
            run_as_admin: false,
            icon: None,
            html_icon: None,
            remark: None,
            icon_background_color: false,
            fixed_icon: false,
            open_number: 0,
            last_open: 0,
            quick_search_last_open: 0,
            multi_items_time_interval: 0,
        }
    }
}

impl Default for Item {
    fn default() -> (r: Self)
        ensures
            r.id == 0,
            r.classification_id == 0,
            r.name@ == Seq::<char>::empty(),
            r.kind == 0,
            r.data.target is None,
            r.data.open_number == 0,
            r.data.last_open == 0,
            r.shortcut_key is None,
            !r.global_shortcut_key,
            r.order == 0,
    {
        Item {
            id: 0,
            classification_id: 0,
            name: String::new(),
            kind: 0,
            data: ItemData::default(),
            shortcut_key: None,
            global_shortcut_key: false,
            order: 0,
        }
    }
}

impl Default for Classification {
    fn default() -> (r: Self)
        ensures
            r.id == 0,
            r.parent_id is None,
            r.name@ == Seq::<char>::empty(),
            r.kind == 0,
            r.data.item_sort@ == Seq::<char>::empty(),
            !r.data.fixed,
            r.shortcut_key is None,
            !r.global_shortcut_key,
            r.order == 0,
            r.child_list@.len() == 0,
    {
        Classification {
            id: 0,
            parent_id: None,
            name: String::new(),
            kind: 0,
            data: ClassificationData::default(),
            shortcut_key: None,
            global_shortcut_key: false,
            order: 0,
            child_list: Vec::new(),
        }
    }
}

/// `a` and `b` are the same tree of classifications: equal rows, and
/// children that are, in order, the same trees.
pub open spec fn same_tree(a: Classification, b: Classification) -> bool
    decreases a,
{
    &&& a@ == b@
    &&& a.child_list@.len() == b.child_list@.len()
    &&& forall|i: int|
        0 <= i < a.child_list@.len() ==> same_tree(#[trigger] a.child_list@[i], b.child_list@[i])
}

impl Clone for Classification {
    /// A deep copy: the row and, in order, a copy of each child.
    fn clone(&self) -> (r: Self)
        ensures
            same_tree(*self, r),
        decreases self,
    {
        let mut children: Vec<Classification> = Vec::new();
        let mut i: usize = 0;
        while i < self.child_list.len()
            invariant
                i <= self.child_list@.len(),
                children@.len() == i,
                forall|j: int| 0 <= j < i ==> same_tree(#[trigger] self.child_list@[j], children@[j]),
            decreases self.child_list@.len() - i,
        {
            let c = self.child_list[i].clone();
            children.push(c);
            i = i + 1;
        }
        let mut r = self.row_copy();
        r.child_list = children;
        r
    }
}

} // verus!
