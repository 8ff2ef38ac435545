//! Shell integration (file icons, shortcut files, opening paths). The
//! library is built for a platform without a native shell layer, where
//! each of these gives the neutral answer below.

use vstd::prelude::*;
use std::collections::HashMap;

verus! {

#[verifier::external_type_specification]
#[verifier::external_body]
pub struct ExIoError(std::io::Error);

/// The icon of a file or folder as a PNG data URL; none is available here.
pub fn get_file_icon(_path: &str) -> (r: Option<String>)
    ensures
        r is None,
{
    None
}

/// The target and arguments of a `.lnk` shortcut (keys `target` and
/// `arguments`); shortcut files cannot be read here.
pub fn get_shortcut_file_info(_path: &str) -> (r: Option<HashMap<String, String>>)
    ensures
        r is None,
{
    None
}

/// Shows a file in the file manager; nothing to do here.
pub fn open_file_location(_path: &str) {
}

/// Finds an executable on the search path; there is none here.
pub fn search_path(_file: &str) -> (r: Option<String>)
    ensures
        r is None,
{
    None
}

/// Opens a file or web address with its default program; succeeds without
/// doing anything here.
pub fn open_path(_path: &str) -> (r: std::io::Result<()>)
    ensures
        r is Ok,
{
    Ok(())
}

/// Whether the foreground window is full screen; never here.
pub fn is_fullscreen() -> (r: bool)
    ensures
        !r,
{
    false
}

/// The text of `String::from_utf16_lossy(units)`: the UTF-16 code units
/// decoded as `char::decode_utf16` does (a unit outside the surrogate range
/// is its own character, a high surrogate followed by a low one forms one
/// character), each unpaired surrogate replaced by U+FFFD.
pub open spec fn utf16_lossy_text(units: Seq<u16>) -> Seq<char>
    decreases units.len(),
{
    if units.len() == 0 {
        Seq::empty()
    } else if units[0] < 0xD800 || units[0] > 0xDFFF {
        seq![units[0] as char] + utf16_lossy_text(units.drop_first())
    } else if units[0] <= 0xDBFF && units.len() >= 2 && 0xDC00 <= units[1] && units[1] <= 0xDFFF {
        seq![(0x10000 + (units[0] - 0xD800) * 0x400 + (units[1] - 0xDC00)) as char]
            + utf16_lossy_text(units.skip(2))
    } else {
        seq!['\u{FFFD}'] + utf16_lossy_text(units.drop_first())
    }
}

/// Calls `String::from_utf16_lossy`. The contract claims that the result is
/// `utf16_lossy_text(units)`, the decoding that the documentation of
/// `from_utf16_lossy` and `char::decode_utf16` describes.
#[verifier::external_body]
fn from_utf16_lossy(units: &[u16]) -> (r: String)
    ensures
        r@ == utf16_lossy_text(units@),
{
    String::from_utf16_lossy(units)
}

/// The code units of `buf` before its first NUL (all of them when there
/// is none).
pub open spec fn before_nul(buf: Seq<u16>) -> Seq<u16> {
    if exists|i: int| 0 <= i < buf.len() && buf[i] == 0 {
        buf.take(choose|i: int| 0 <= i < buf.len() && buf[i] == 0 && forall|k: int| 0 <= k < i ==> buf[k] != 0)
    } else {
        buf
    }
}

/// Decodes a NUL-terminated UTF-16 buffer as filled by the shell API.
pub fn u16_to_string(buf: &[u16]) -> (r: String)
    ensures
        r@ == utf16_lossy_text(before_nul(buf@)),
{
    let mut units: Vec<u16> = Vec::new();
    let mut i: usize = 0;
    while i < buf.len() && buf[i] != 0
        invariant
            0 <= i <= buf@.len(),
            units@ == buf@.take(i as int),
            forall|k: int| 0 <= k < i ==> buf@[k] != 0,
        decreases buf@.len() - i,
    {
        units.push(buf[i]);
        assert(units@ =~= buf@.take(i + 1));
        i = i + 1;
    }
    proof {
        if i < buf@.len() {
            let w = choose|j: int|
                0 <= j < buf@.len() && buf@[j] == 0 && forall|k: int| 0 <= k < j ==> buf@[k] != 0;
            assert(0 <= i < buf@.len() && buf@[i as int] == 0);
            if w < i {
            } else if w > i {
                assert(buf@[i as int] != 0);
            }
        } else {
            assert(buf@.take(i as int) =~= buf@);
        }
    }
    from_utf16_lossy(units.as_slice())
}

} // verus!
