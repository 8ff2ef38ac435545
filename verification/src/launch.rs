//! Turning a dropped or chosen path into a new item, deciding how an item is
//! opened, and the rows the item and classification lists display.

use vstd::prelude::*;
use crate::data_url::{base64_decode, base64_decoded, data_url_parts, parse_data_url};
use crate::models::{
    Classification, Item, ItemData, ItemDataView, ItemView, ITEM_KIND_FILE,
    ITEM_KIND_FOLDER, ITEM_KIND_URL, clone_opt_string,
};
use crate::native;
use crate::paths::{is_web_address, opt_text_of};
use crate::text::{char_class, ends_with, seq_ends_with, seq_starts_with, starts_with, str_chars, string_from_chars, trim_char_seq, trim_chars_of, trim_class};

verus! {

broadcast use vstd::string::group_string_axioms;

/// The text of `str::to_lowercase(s)`: each character mapped to its
/// Unicode lowercase form.
pub uninterp spec fn lowercase_text(s: Seq<char>) -> Seq<char>;

/// Calls `str::to_lowercase`. The contract claims only that the result is
/// `lowercase_text(s)`.
#[verifier::external_body]
fn to_lowercase(s: &str) -> (r: String)
    ensures
        r@ == lowercase_text(s@),
{
    s.to_lowercase()
}

/// The text of `Path::new(p).file_stem()`: the last path component without
/// its extension, if there is a last component.
pub uninterp spec fn file_stem_text(p: Seq<char>) -> Option<Seq<char>>;

/// Calls `Path::file_stem` and turns the result into text. The contract
/// claims only that the result is `file_stem_text(p)`.
#[verifier::external_body]
fn file_stem(p: &str) -> (r: Option<String>)
    ensures
        opt_text_of(r) == file_stem_text(p@),
{
    match std::path::Path::new(p).file_stem() {
        Some(s) => Some(s.to_string_lossy().to_string()),
        None => None,
    }
}

/// The text of `Path::new(p).file_name()`: the last path component, if any.
pub uninterp spec fn file_name_text(p: Seq<char>) -> Option<Seq<char>>;

/// Calls `Path::file_name` and turns the result into text. The contract
/// claims only that the result is `file_name_text(p)`.
#[verifier::external_body]
fn file_name(p: &str) -> (r: Option<String>)
    ensures
        opt_text_of(r) == file_name_text(p@),
{
    match std::path::Path::new(p).file_name() {
        Some(s) => Some(s.to_string_lossy().to_string()),
        None => None,
    }
}

/// Calls `Path::is_dir`, which asks the file system. Nothing is claimed of
/// the result: it depends on what is on disk.
#[verifier::external_body]
fn path_is_dir(p: &str) -> (r: bool) {
    std::path::Path::new(p).is_dir()
}

/// Calls `Path::exists`, which asks the file system. Nothing is claimed of
/// the result: it depends on what is on disk.
#[verifier::external_body]
fn path_exists(p: &str) -> (r: bool) {
    std::path::Path::new(p).exists()
}

pub open spec fn lnk_suffix() -> Seq<char> {
    seq!['.', 'l', 'n', 'k']
}

/// The extra data of a new item: everything empty, zero or off.
pub open spec fn empty_item_data() -> ItemDataView {
    ItemDataView {
        start_location: None,
        target: None,
        params: None,
        run_as_admin: false,
        icon: None,
        html_icon: None,
        remark: None,
        icon_background_color: false,
        fixed_icon: false,
        open_number: 0,
        last_open: 0,
        quick_search_last_open: 0,
        multi_items_time_interval: 0,
    }
}

/// An item that is not stored yet (id 0) with the given fields.
pub open spec fn new_item_view(
    cid: i64,
    order: i64,
    kind: i64,
    name: Seq<char>,
    target: Seq<char>,
    params: Option<Seq<char>>,
    icon: Option<Seq<char>>,
) -> ItemView {
    ItemView {
        id: 0,
        classification_id: cid,
        name: name,
        kind: kind,
        data: ItemDataView { target: Some(target), params: params, icon: icon, ..empty_item_data() },
        shortcut_key: None,
        global_shortcut_key: false,
        order: order,
    }
}

/// `o`'s text, or `d` when there is none.
pub open spec fn text_or(o: Option<Seq<char>>, d: Seq<char>) -> Seq<char> {
    match o {
        Some(t) => t,
        None => d,
    }
}

/// The item a path gives, `is_dir` telling whether the path is a folder.
/// The path is first stripped of surrounding double quotes. A web address
/// becomes a URL item named after itself. Anything else becomes a file
/// item named by its file stem, or a folder item named by its file name
/// when it is a directory; `.lnk` shortcuts are file items as well, since
/// shortcut files cannot be read on this platform. No icon is available.
pub open spec fn item_for_path(path: Seq<char>, cid: i64, order: i64, is_dir: bool) -> ItemView {
    let p = trim_char_seq(path, '"');
    if is_web_address(p) {
        new_item_view(cid, order, ITEM_KIND_URL, p, p, None, None)
    } else if seq_ends_with(lowercase_text(p), lnk_suffix()) {
        new_item_view(cid, order, ITEM_KIND_FILE, text_or(file_stem_text(p), p), p, None, None)
    } else if is_dir {
        new_item_view(cid, order, ITEM_KIND_FOLDER, text_or(file_name_text(p), p), p, None, None)
    } else {
        new_item_view(cid, order, ITEM_KIND_FILE, text_or(file_stem_text(p), p), p, None, None)
    }
}

fn empty_item_data_exec() -> (r: ItemData)
    ensures
        r@ == empty_item_data(),
{
    ItemData {
        start_location: None,
        target: None,
        params: None,
        run_as_admin: false,
        icon: None,
        html_icon: None,
        remark: None,
        icon_background_color: false,
        fixed_icon: false,
        open_number: 0,
        last_open: 0,
        quick_search_last_open: 0,
        multi_items_time_interval: 0,
    }
}

fn new_item(
    cid: i64,
    order: i64,
    kind: i64,
    name: String,
    target: String,
    params: Option<String>,
    icon: Option<String>,
) -> (r: Item)
    ensures
        r@ == new_item_view(cid, order, kind, name@, target@, opt_text_of(params), opt_text_of(icon)),
{
    let mut data = empty_item_data_exec();
    data.target = Some(target);
    data.params = params;
    data.icon = icon;
    Item {
        id: 0,
        classification_id: cid,
        name,
        kind,
        data,
        shortcut_key: None,
        global_shortcut_key: false,
        order,
    }
}

fn text_or_exec(o: Option<String>, d: &String) -> (r: String)
    ensures
        r@ == text_or(opt_text_of(o), d@),
{
    match o {
        Some(t) => t,
        None => d.clone(),
    }
}

/// The item for `path` when `is_dir` tells whether it is a folder.
pub fn item_for_path_with(path: &str, classification_id: i64, order: i64, is_dir: bool) -> (r: Item)
    ensures
        r@ == item_for_path(path@, classification_id, order, is_dir),
        r@.data.target == Some(trim_char_seq(path@, '"')),
        seq_starts_with(trim_char_seq(path@, '"'), "http://"@) || seq_starts_with(
            trim_char_seq(path@, '"'),
            "https://"@,
        ) ==> r.kind == ITEM_KIND_URL && r@.name == trim_char_seq(path@, '"'),
{
    let cs = trim_chars_of(&str_chars(path), Some('"'));
    assert(trim_class(Some('"')) == char_class('"'));
    let p = string_from_chars(&cs);
    proof {
        reveal_strlit("http://");
        reveal_strlit("https://");
        reveal_strlit(".lnk");
        assert(".lnk"@ =~= lnk_suffix());
        assert("http://"@ =~= crate::paths::http_prefix());
        assert("https://"@ =~= crate::paths::https_prefix());
    }
    if starts_with(&cs, "http://") || starts_with(&cs, "https://") {
        return new_item(classification_id, order, ITEM_KIND_URL, p.clone(), p.clone(), None, None);
    }
    let lower = str_chars(to_lowercase(p.as_str()).as_str());
    if ends_with(&lower, ".lnk") {
        match native::get_shortcut_file_info(p.as_str()) {
            Some(info) => {
                let target_key = String::from_str("target");
                let arguments_key = String::from_str("arguments");
                let target = match info.get(&target_key) {
                    Some(t) => t.clone(),
                    None => p.clone(),
                };
                let arguments = match info.get(&arguments_key) {
                    Some(a) => a.clone(),
                    None => String::new(),
                };
                let name = text_or_exec(file_stem(p.as_str()), &target);
                let icon = native::get_file_icon(target.as_str());
                let params = if arguments.as_str().is_empty() {
                    None
                } else {
                    Some(arguments)
                };
                return new_item(classification_id, order, ITEM_KIND_FILE, name, target, params, icon);
            },
            None => {
                let name = text_or_exec(file_stem(p.as_str()), &p);
                let icon = native::get_file_icon(p.as_str());
                return new_item(classification_id, order, ITEM_KIND_FILE, name, p.clone(), None, icon);
            },
        }
    }
    if is_dir {
        let name = text_or_exec(file_name(p.as_str()), &p);
        let icon = native::get_file_icon(p.as_str());
        new_item(classification_id, order, ITEM_KIND_FOLDER, name, p.clone(), None, icon)
    } else {
        let name = text_or_exec(file_stem(p.as_str()), &p);
        let icon = native::get_file_icon(p.as_str());
        new_item(classification_id, order, ITEM_KIND_FILE, name, p.clone(), None, icon)
    }
}

/// Builds a new item (not stored yet, id 0) for `path`. Only a path that
/// is neither a web address nor a `.lnk` shortcut makes it ask the file
/// system whether the path is a folder.
pub fn build_item_from_path(path: &str, classification_id: i64, order: i64) -> (r: Item)
    ensures
        exists|is_dir: bool| r@ == #[trigger] item_for_path(path@, classification_id, order, is_dir),
        ({
            let p = trim_char_seq(path@, '"');
            is_web_address(p) || seq_ends_with(lowercase_text(p), lnk_suffix())
        }) ==> r@ == item_for_path(path@, classification_id, order, false),
        r@.data.target == Some(trim_char_seq(path@, '"')),
        seq_starts_with(trim_char_seq(path@, '"'), "http://"@) || seq_starts_with(
            trim_char_seq(path@, '"'),
            "https://"@,
        ) ==> r.kind == ITEM_KIND_URL && r@.name == trim_char_seq(path@, '"'),
{
    let cs = trim_chars_of(&str_chars(path), Some('"'));
    assert(trim_class(Some('"')) == char_class('"'));
    let trimmed = string_from_chars(&cs);
    proof {
        reveal_strlit("http://");
        reveal_strlit("https://");
        reveal_strlit(".lnk");
        assert(".lnk"@ =~= lnk_suffix());
        assert("http://"@ =~= crate::paths::http_prefix());
        assert("https://"@ =~= crate::paths::https_prefix());
    }
    let web = starts_with(&cs, "http://") || starts_with(&cs, "https://");
    let shortcut = ends_with(&str_chars(to_lowercase(trimmed.as_str()).as_str()), ".lnk");
    let is_dir = if web || shortcut {
        false
    } else {
        path_is_dir(trimmed.as_str())
    };
    item_for_path_with(path, classification_id, order, is_dir)
}

/// What opening an item comes to.
pub enum OpenOutcome {
    /// The item has no target (or an empty one); nothing is opened.
    NoTarget,
    /// The target is a path that does not exist; nothing is opened.
    Missing(String),
    /// The target was handed to the system to open.
    Opened(String),
    /// The system could not open the target.
    Failed(String),
}

/// What happens when opening `item`, `exists` telling whether its target
/// exists on disk, and `launched` whether the system accepted it.
pub open spec fn open_outcome_spec(item: ItemView, exists: bool, launched: bool) -> (int, Seq<char>) {
    match item.data.target {
        None => (0, seq![]),
        Some(t) => if t.len() == 0 {
            (0, seq![])
        } else if item.kind != ITEM_KIND_URL && !exists {
            (1, t)
        } else if launched {
            (2, t)
        } else {
            (3, t)
        },
    }
}

/// The outcome as a tag (0 no target, 1 missing, 2 opened, 3 failed) and
/// the target it names.
pub open spec fn outcome_code(o: OpenOutcome) -> (int, Seq<char>) {
    match o {
        OpenOutcome::NoTarget => (0, seq![]),
        OpenOutcome::Missing(t) => (1, t@),
        OpenOutcome::Opened(t) => (2, t@),
        OpenOutcome::Failed(t) => (3, t@),
    }
}

/// What opening `item` comes to, `target_exists` telling whether its
/// target exists on disk and `launched` whether the system accepted the
/// target when it was handed over: web addresses are handed over as they
/// are, other targets only when they exist.
pub fn open_item_with(item: &Item, target_exists: bool, launched: bool) -> (r: OpenOutcome)
    ensures
        outcome_code(r) == open_outcome_spec(item@, target_exists, launched),
{
    let target = match clone_opt_string(&item.data.target) {
        Some(t) => t,
        None => return OpenOutcome::NoTarget,
    };
    if target.as_str().is_empty() {
        return OpenOutcome::NoTarget;
    }
    if !item.is_url() && !target_exists {
        return OpenOutcome::Missing(target);
    }
    if launched {
        OpenOutcome::Opened(target)
    } else {
        OpenOutcome::Failed(target)
    }
}

/// The target that opening `item` hands to the system, `exists` telling
/// whether it exists on disk: none when the item has no (or an empty)
/// target, or when a target that is not a web address does not exist.
pub open spec fn open_target_spec(item: ItemView, exists: bool) -> Option<Seq<char>> {
    let o = open_outcome_spec(item, exists, true);
    if o.0 == 2 {
        Some(o.1)
    } else {
        None
    }
}

/// The target to hand to the system to open `item`, asking the file
/// system whether it exists (web addresses are not checked). Handing it
/// over is the window's part.
pub fn open_item(item: &Item) -> (r: Option<String>)
    ensures
        exists|e: bool| opt_text_of(r) == #[trigger] open_target_spec(item@, e),
        item.kind == ITEM_KIND_URL ==> opt_text_of(r) == open_target_spec(item@, true),
{
    let exists = match &item.data.target {
        Some(t) => if item.is_url() {
            true
        } else {
            path_exists(t.as_str())
        },
        None => false,
    };
    let o = open_item_with(item, exists, true);
    let r = match o {
        OpenOutcome::Opened(t) => Some(t),
        _ => None,
    };
    assert(opt_text_of(r) == open_target_spec(item@, exists));
    r
}

/// A row of the classification list.
pub struct ClassificationEntry {
    pub id: i32,
    pub name: String,
    pub selected: bool,
}

/// The list rows of `list`, the one with id `selected_id` selected.
pub fn classification_entries(list: &Vec<Classification>, selected_id: i64) -> (r: Vec<
    ClassificationEntry,
>)
    ensures
        r@.len() == list@.len(),
        forall|i: int|
            0 <= i < r@.len() ==> {
                &&& (#[trigger] r@[i]).id == list@[i].id as i32
                &&& r@[i].name@ == list@[i].name@
                &&& r@[i].selected == (list@[i].id == selected_id)
            },
{
    let mut out: Vec<ClassificationEntry> = Vec::new();
    for i in 0..list.len()
        invariant
            out@.len() == i,
            forall|k: int|
                0 <= k < i ==> {
                    &&& (#[trigger] out@[k]).id == list@[k].id as i32
                    &&& out@[k].name@ == list@[k].name@
                    &&& out@[k].selected == (list@[k].id == selected_id)
                },
    {
        let c = &list[i];
        out.push(ClassificationEntry { id: c.id as i32, name: c.name.clone(), selected: c.id == selected_id });
    }
    out
}

/// The decoded bytes of an item's icon, when it is a Base64 data URL.
pub open spec fn icon_bytes_spec(icon: Option<Seq<char>>) -> Option<Seq<u8>> {
    match icon {
        None => None,
        Some(url) => match data_url_parts(url) {
            None => None,
            Some((_, payload)) => base64_decoded(payload),
        },
    }
}

/// The image bytes of the icon of `item`: its data URL's payload decoded.
pub fn item_icon_bytes(item: &Item) -> (r: Option<Vec<u8>>)
    ensures
        match r {
            Some(b) => icon_bytes_spec(item@.data.icon) == Some(b@),
            None => icon_bytes_spec(item@.data.icon) is None,
        },
{
    match &item.data.icon {
        None => None,
        Some(url) => match parse_data_url(url.as_str()) {
            None => None,
            Some((_, payload)) => base64_decode(payload.as_str()),
        },
    }
}

/// Files and folders whose target is missing (or does not exist, as
/// `target_exists` tells) are shown as invalid.
pub open spec fn invalid_spec(item: ItemView, target_exists: bool) -> bool {
    (item.kind == ITEM_KIND_FILE || item.kind == ITEM_KIND_FOLDER) && (item.data.target is None
        || !target_exists)
}

/// A row of the item list.
pub struct ItemEntry {
    pub id: i32,
    pub name: String,
    pub icon: Option<Vec<u8>>,
    pub invalid: bool,
    pub selected: bool,
}

/// The list row of `item`, `target_exists` telling whether its target
/// exists on disk.
pub fn item_entry(item: &Item, target_exists: bool) -> (r: ItemEntry)
    ensures
        r.id == item.id as i32,
        r.name@ == item.name@,
        r.invalid == invalid_spec(item@, target_exists),
        (item.kind == ITEM_KIND_FOLDER || item.kind == ITEM_KIND_FILE) && (item.data.target is None
            || !target_exists) ==> r.invalid,
        item.kind != ITEM_KIND_FILE && item.kind != ITEM_KIND_FOLDER ==> !r.invalid,
        item.data.target is Some && target_exists ==> !r.invalid,
        !r.selected,
        match r.icon {
            Some(b) => icon_bytes_spec(item@.data.icon) == Some(b@),
            None => icon_bytes_spec(item@.data.icon) is None,
        },
{
    let invalid = (item.is_file() || item.is_folder()) && match &item.data.target {
        Some(_) => !target_exists,
        None => true,
    };
    ItemEntry {
        id: item.id as i32,
        name: item.name.clone(),
        icon: item_icon_bytes(item),
        invalid,
        selected: false,
    }
}

/// The list row of `item`, asking the file system whether its target exists.
pub fn item_entry_checked(item: &Item) -> (r: ItemEntry)
    ensures
        exists|e: bool| r.invalid == invalid_spec(item@, e),
        r.id == item.id as i32,
        r.name@ == item.name@,
        !r.selected,
        match r.icon {
            Some(b) => icon_bytes_spec(item@.data.icon) == Some(b@),
            None => icon_bytes_spec(item@.data.icon) is None,
        },
{
    let exists = match &item.data.target {
        Some(t) => path_exists(t.as_str()),
        None => false,
    };
    item_entry(item, exists)
}

} // verus!
