//! Converting item targets between absolute paths and paths relative to the
//! data directory (portable mode). Web addresses are never converted.

use vstd::prelude::*;
use crate::text::{push_char, seq_starts_with, starts_with, str_chars};

verus! {

broadcast use vstd::string::group_string_axioms;

/// The text of `pathdiff::diff_paths(path, base)`: the path that leads from
/// `base` to `path`, built from path components for the platform the
/// library is compiled for; `None` where no such path can be formed.
pub uninterp spec fn diff_paths_text(path: Seq<char>, base: Seq<char>) -> Option<Seq<char>>;

/// Calls `pathdiff::diff_paths(path, base)` and turns the resulting path
/// into text. The contract claims only that the result is
/// `diff_paths_text(path, base)`: a function of the two arguments.
#[verifier::external_body]
fn diff_paths(path: &str, base: &str) -> (r: Option<String>)
    ensures
        match r {
            Some(d) => diff_paths_text(path@, base@) == Some(d@),
            None => diff_paths_text(path@, base@) is None,
        },
{
    match pathdiff::diff_paths(path, base) {
        Some(p) => Some(p.to_string_lossy().to_string()),
        None => None,
    }
}

/// The text of `Path::new(base).join(rel)`: `rel` appended to `base` with
/// the platform's separator rules.
pub uninterp spec fn joined_path_text(base: Seq<char>, rel: Seq<char>) -> Seq<char>;

/// Calls `Path::join` and turns the joined path into text. The contract
/// claims that the result is `joined_path_text(base, rel)`, and two facts
/// that the documentation of `PathBuf::push` gives for this (Unix) build:
/// an absolute `rel` (one starting with `/`) replaces `base`, and a relative
/// `rel` extends `base`, so that `base` is a prefix of the result.
#[verifier::external_body]
fn join_path(base: &str, rel: &str) -> (r: String)
    ensures
        r@ == joined_path_text(base@, rel@),
        is_absolute_text(rel@) ==> r@ == rel@,
        !is_absolute_text(rel@) ==> base@.is_prefix_of(r@),
{
    std::path::Path::new(base).join(rel).to_string_lossy().to_string()
}

/// Calls `Path::canonicalize`, which consults the file system (the path
/// must exist; links are resolved). Which path comes back depends on what
/// is on disk; the contract claims only what the documentation promises of
/// every outcome: the path returned is absolute, which on this (Unix) build
/// means that it starts with `/`.
#[verifier::external_body]
fn canonicalize_path(path: &str) -> (r: Option<String>)
    ensures
        r matches Some(c) ==> is_absolute_text(c@),
{
    match std::path::Path::new(path).canonicalize() {
        Ok(p) => Some(p.to_string_lossy().to_string()),
        Err(_) => None,
    }
}

/// `p` is an absolute path on this (Unix) build: it starts with `/`.
pub open spec fn is_absolute_text(p: Seq<char>) -> bool {
    p.len() > 0 && p[0] == '/'
}

/// An outcome of canonicalization that the file system can give: none,
/// or an absolute path.
pub open spec fn canonical_ok(c: Option<Seq<char>>) -> bool {
    match c {
        Some(t) => is_absolute_text(t),
        None => true,
    }
}

/// Every outcome in `outcomes` is one the file system can give.
pub open spec fn outcomes_ok(outcomes: Seq<Option<Seq<char>>>) -> bool {
    forall|i: int| 0 <= i < outcomes.len() ==> canonical_ok(#[trigger] outcomes[i])
}

pub open spec fn http_prefix() -> Seq<char> {
    seq!['h', 't', 't', 'p', ':', '/', '/']
}

pub open spec fn https_prefix() -> Seq<char> {
    seq!['h', 't', 't', 'p', 's', ':', '/', '/']
}

/// `s` is a web address (`http://` or `https://`).
pub open spec fn is_web_address(s: Seq<char>) -> bool {
    seq_starts_with(s, http_prefix()) || seq_starts_with(s, https_prefix())
}

/// `s` is already written relative to some directory (starts with `.`).
pub open spec fn is_dot_relative(s: Seq<char>) -> bool {
    s.len() > 0 && s[0] == '.'
}

/// Backslashes turned into forward slashes.
pub open spec fn forward_slashes(s: Seq<char>) -> Seq<char> {
    s.map_values(|c: char| if c == '\\' { '/' } else { c })
}

/// The relative target that a path difference `d` yields: with forward
/// slashes, and prefixed with `./` unless it already starts with `.`;
/// nothing when the difference is empty.
pub open spec fn relative_from_diff(d: Option<Seq<char>>) -> Option<Seq<char>> {
    match d {
        None => None,
        Some(d) => {
            let rel = forward_slashes(d);
            if rel.len() == 0 {
                None
            } else if rel[0] == '.' {
                Some(rel)
            } else {
                Some(seq!['.', '/'] + rel)
            }
        },
    }
}

/// The relative form of `target` against `base`; web addresses and
/// targets that already start with `.` are left alone (`None`).
pub open spec fn relative_target(target: Seq<char>, base: Seq<char>) -> Option<Seq<char>> {
    if is_web_address(target) || is_dot_relative(target) {
        None
    } else {
        relative_from_diff(diff_paths_text(target, base))
    }
}

fn is_web_address_exec(cs: &Vec<char>) -> (r: bool)
    ensures
        r == is_web_address(cs@),
{
    proof {
        reveal_strlit("http://");
        reveal_strlit("https://");
        assert("http://"@ =~= http_prefix());
        assert("https://"@ =~= https_prefix());
    }
    starts_with(cs, "http://") || starts_with(cs, "https://")
}

/// Finishes a relative target from the text of a path difference.
pub fn relative_path_from_diff(diff: Option<String>) -> (r: Option<String>)
    ensures
        opt_text_of(r) == relative_from_diff(opt_text_of(diff)),
{
    let d = match diff {
        Some(d) => d,
        None => return None,
    };
    let cs = str_chars(d.as_str());
    let mut rel = String::new();
    let mut i: usize = 0;
    while i < cs.len()
        invariant
            0 <= i <= cs@.len(),
            rel@ == forward_slashes(cs@.take(i as int)),
        decreases cs@.len() - i,
    {
        let c = cs[i];
        push_char(&mut rel, if c == '\\' { '/' } else { c });
        assert(forward_slashes(cs@.take(i + 1)) =~= forward_slashes(cs@.take(i as int)).push(
            if c == '\\' { '/' } else { c },
        ));
        i = i + 1;
    }
    assert(cs@.take(cs@.len() as int) =~= cs@);
    let rs = str_chars(rel.as_str());
    if rs.len() == 0 {
        None
    } else if rs[0] == '.' {
        Some(rel)
    } else {
        let mut out = String::new();
        push_char(&mut out, '.');
        push_char(&mut out, '/');
        out.append(rel.as_str());
        assert(out@ =~= seq!['.', '/'] + rel@);
        Some(out)
    }
}

/// The text of an optional string.
pub open spec fn opt_text_of(o: Option<String>) -> Option<Seq<char>> {
    match o {
        Some(s) => Some(s@),
        None => None,
    }
}

/// Turns an absolute target into a path relative to `base_dir`, written
/// with forward slashes and starting with `.`. Web addresses, targets that
/// already start with `.`, and targets for which no relative path exists
/// give `None`.
pub fn make_relative_path(target: &str, base_dir: &str) -> (r: Option<String>)
    ensures
        opt_text_of(r) == relative_target(target@, base_dir@),
{
    let cs = str_chars(target);
    if is_web_address_exec(&cs) {
        return None;
    }
    if cs.len() > 0 && cs[0] == '.' {
        return None;
    }
    relative_path_from_diff(diff_paths(target, base_dir))
}

/// `s` is written as an absolute Windows path: a drive (`C:`) or a UNC
/// share (`\\server`). The drive test looks at the second byte of the
/// UTF-8 text, which is `:` exactly when the first character is ASCII and
/// the second is `:`.
pub open spec fn is_windows_absolute(s: Seq<char>) -> bool {
    ||| s.len() >= 2 && (s[0] as int) < 128 && s[1] == ':'
    ||| seq_starts_with(s, seq!['\\', '\\'])
}

/// `target` is converted by [`make_absolute_path`]: it starts with `.` and
/// is neither a web address nor an absolute Windows path.
pub open spec fn absolute_eligible(target: Seq<char>) -> bool {
    !is_web_address(target) && !is_windows_absolute(target) && is_dot_relative(target)
}

/// The absolute target chosen from the joined path and the outcome of
/// canonicalizing it: the canonical path where there is one.
pub open spec fn absolute_choice(joined: Seq<char>, canonical: Option<Seq<char>>) -> Seq<char> {
    match canonical {
        Some(c) => c,
        None => joined,
    }
}

/// Picks the canonical path where canonicalization succeeded, else the
/// joined path.
pub fn absolute_path_from(joined: String, canonical: Option<String>) -> (r: String)
    ensures
        r@ == absolute_choice(joined@, opt_text_of(canonical)),
{
    match canonical {
        Some(c) => c,
        None => joined,
    }
}

/// Turns a target relative to `base_dir` (one starting with `.`) into an
/// absolute path: `base_dir` joined with it, canonicalized where the file
/// system allows. Web addresses, absolute Windows paths and targets not
/// starting with `.` give `None`.
pub fn make_absolute_path(target: &str, base_dir: &str) -> (r: Option<String>)
    ensures
        r is Some <==> absolute_eligible(target@),
        target@.len() > 0 && target@[0] == '.' && !(target@.len() >= 2 && target@[1] == ':') ==> r is Some,
        r matches Some(p) ==> exists|c: Option<Seq<char>>|
            canonical_ok(c) && p@ == #[trigger] absolute_choice(joined_path_text(base_dir@, target@), c),
        r matches Some(p) ==> is_absolute_text(p@) || base_dir@.is_prefix_of(p@),
{
    let cs = str_chars(target);
    if is_web_address_exec(&cs) {
        return None;
    }
    if cs.len() >= 2 && (cs[0] as u32) < 128 && cs[1] == ':' {
        return None;
    }
    if cs.len() >= 2 && cs[0] == '\\' && cs[1] == '\\' {
        assert(seq_starts_with(cs@, seq!['\\', '\\'])) by {
            assert(cs@.take(2) =~= seq!['\\', '\\']);
        }
        return None;
    }
    assert(!seq_starts_with(cs@, seq!['\\', '\\'])) by {
        if seq_starts_with(cs@, seq!['\\', '\\']) {
            assert(cs@.take(2)[0] == cs@[0]);
            assert(cs@.take(2)[1] == cs@[1]);
        }
    }
    if !(cs.len() > 0 && cs[0] == '.') {
        return None;
    }
    let joined = join_path(base_dir, target);
    let canonical = canonicalize_path(joined.as_str());
    let p = absolute_path_from(joined, canonical);
    assert(p@ == absolute_choice(joined_path_text(base_dir@, target@), opt_text_of(canonical)));
    assert(canonical_ok(opt_text_of(canonical)));
    Some(p)
}

} // verus!
