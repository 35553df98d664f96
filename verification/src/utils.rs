//! File and folder naming: session identifiers, safe file names, and the
//! rule that a download folder is created at most one level deep.

use vstd::prelude::*;
use rand::Rng;
use crate::config::{debug_path, path_debug};
use crate::text::{append_str, chars_of, string_of, trim, trim_chars, is_trimmed, is_whitespace, lemma_trim_shape, lemma_trim_of_trimmed};

verus! {

/// Whether `c` may not stand in a file name and is replaced by `_`.
pub open spec fn is_forbidden_char(c: char) -> bool {
    c == '/' || c == '\\' || c == ':' || c == '*' || c == '?' || c == '"' || c == '<' || c == '>'
        || c == '|'
}

/// `c`, or `_` in place of a character that may not stand in a file name.
pub open spec fn sanitize_char(c: char) -> char {
    if is_forbidden_char(c) {
        '_'
    } else {
        c
    }
}

/// The name used when nothing is left of a title.
pub open spec fn untitled() -> Seq<char> {
    seq!['u', 'n', 't', 'i', 't', 'l', 'e', 'd']
}

/// The safe file name for `name`: forbidden characters become `_`, the result
/// is trimmed, and an empty result becomes `untitled`.
pub open spec fn sanitized_name(name: Seq<char>) -> Seq<char> {
    let t = trim(name.map_values(|c: char| sanitize_char(c)));
    if t.len() == 0 {
        untitled()
    } else {
        t
    }
}

/// Whether `c` can occur in a session identifier: a lowercase ASCII letter
/// or an ASCII digit.
pub open spec fn is_id_char(c: char) -> bool {
    ('a' <= c <= 'z') || ('0' <= c <= '9')
}

/// The `i`-th character of the identifier alphabet `a..z0..9`.
pub open spec fn id_alphabet_char(i: int) -> char {
    if i < 26 {
        ((i + 97) as u32) as char
    } else {
        ((i - 26 + 48) as u32) as char
    }
}

/// Calls `rand::thread_rng().gen_range(0..n)`: a random index below `n`.
/// `gen_range` panics on an empty range, so `n` must be positive; the value
/// itself rests on chance and is only bounded.
#[verifier::external_body]
fn random_index(n: usize) -> (r: usize)
    requires
        n > 0,
    ensures
        r < n,
{
    rand::thread_rng().gen_range(0..n)
}

fn id_char(i: usize) -> (c: char)
    requires
        i < 36,
    ensures
        c == id_alphabet_char(i as int),
        is_id_char(c),
{
    if i < 26 {
        let b: u8 = 97u8 + (i as u8);
        assert(b as u32 == i + 97);
        b as char
    } else {
        let b: u8 = 48u8 + ((i - 26) as u8);
        assert(b as u32 == i - 26 + 48);
        b as char
    }
}

/// The download ID spelled by eight indices into the alphabet `a..z0..9`.
pub open spec fn id_from_indices(idx: Seq<usize>) -> Seq<char> {
    Seq::new(8, |i: int| id_alphabet_char(idx[i] as int))
}

/// The 8-character download ID whose `i`-th character is the `idx[i]`-th
/// letter of `a..z0..9`.
pub fn download_id_from(idx: &[usize; 8]) -> (id: String)
    requires
        forall|i: int| 0 <= i < 8 ==> #[trigger] idx@[i] < 36,
    ensures
        id@ == id_from_indices(idx@),
        forall|i: int| 0 <= i < 8 ==> is_id_char(#[trigger] id@[i]),
{
    let mut cs: Vec<char> = Vec::new();
    let mut k: usize = 0;
    while k < 8
        invariant
            k <= 8,
            idx@.len() == 8,
            forall|i: int| 0 <= i < 8 ==> #[trigger] idx@[i] < 36,
            cs@ == id_from_indices(idx@).subrange(0, k as int),
            forall|i: int| 0 <= i < k ==> is_id_char(#[trigger] cs@[i]),
        decreases 8 - k,
    {
        let c = id_char(idx[k]);
        cs.push(c);
        k = k + 1;
    }
    assert(cs@ == id_from_indices(idx@));
    string_of(&cs)
}

/// Generates a random 8-character lowercase alphanumeric download ID: eight
/// letters of `a..z0..9`, each drawn at random.
pub fn generate_download_id() -> (id: String)
    ensures
        id@.len() == 8,
        forall|i: int| 0 <= i < 8 ==> is_id_char(#[trigger] id@[i]),
        exists|idx: Seq<usize>|
            idx.len() == 8 && (forall|i: int| 0 <= i < 8 ==> #[trigger] idx[i] < 36) && id@
                == id_from_indices(idx),
{
    let idx: [usize; 8] = [
        random_index(36),
        random_index(36),
        random_index(36),
        random_index(36),
        random_index(36),
        random_index(36),
        random_index(36),
        random_index(36),
    ];
    download_id_from(&idx)
}

/// Sanitizes text into a safe file name by replacing invalid characters with
/// underscores and trimming; an empty result becomes `untitled`.
pub fn sanitize_filename(name: &str) -> (r: String)
    ensures
        r@ == sanitized_name(name@),
{
    let cs = chars_of(name);
    let mut mapped: Vec<char> = Vec::new();
    let mut i: usize = 0;
    while i < cs.len()
        invariant
            i <= cs@.len(),
            cs@ == name@,
            mapped@ == cs@.subrange(0, i as int).map_values(|c: char| sanitize_char(c)),
        decreases cs.len() - i,
    {
        let c = cs[i];
        let d = if c == '/' || c == '\\' || c == ':' || c == '*' || c == '?' || c == '"' || c
            == '<' || c == '>' || c == '|' {
            '_'
        } else {
            c
        };
        mapped.push(d);
        i = i + 1;
        assert(mapped@ =~= cs@.subrange(0, i as int).map_values(|c: char| sanitize_char(c)));
    }
    assert(cs@.subrange(0, cs@.len() as int) =~= cs@);
    let t = trim_chars(&mapped);
    if t.len() == 0 {
        let u = chars_of("untitled");
        proof {
            reveal_strlit("untitled");
            assert(u@ =~= untitled());
        }
        string_of(&u)
    } else {
        string_of(&t)
    }
}

/// A sanitized name is never empty, holds no character that may not stand in
/// a file name, and neither starts nor ends with whitespace.
pub proof fn lemma_sanitized_name_is_safe(name: Seq<char>)
    ensures
        sanitized_name(name).len() > 0,
        forall|i: int|
            0 <= i < sanitized_name(name).len() ==> !is_forbidden_char(
                #[trigger] sanitized_name(name)[i],
            ),
        is_trimmed(sanitized_name(name)),
{
    let m = name.map_values(|c: char| sanitize_char(c));
    lemma_trim_shape(m);
    let t = trim(m);
    let (a, b) = choose|a: int, b: int|
        0 <= a <= b <= m.len() && t == m.subrange(a, b) && (forall|i: int|
            0 <= i < a ==> is_whitespace(#[trigger] m[i])) && (forall|i: int|
            b <= i < m.len() ==> is_whitespace(#[trigger] m[i]));
    if t.len() == 0 {
        assert(!is_whitespace('u'));
        assert(!is_whitespace('d'));
    } else {
        assert forall|i: int| 0 <= i < t.len() implies !is_forbidden_char(#[trigger] t[i]) by {
            assert(t[i] == m[a + i]);
        }
    }
}

/// Sanitizing a name twice gives the same name as sanitizing it once.
pub proof fn lemma_sanitize_idempotent(name: Seq<char>)
    ensures
        sanitized_name(sanitized_name(name)) == sanitized_name(name),
{
    let s = sanitized_name(name);
    lemma_sanitized_name_is_safe(name);
    let m = s.map_values(|c: char| sanitize_char(c));
    assert(m =~= s);
    lemma_trim_of_trimmed(s);
}

/// What `std::path::Path::parent` gives for the path `p`, as text.
pub uninterp spec fn path_parent(p: Seq<char>) -> Option<Seq<char>>;

/// Calls `std::path::Path::parent` on `p`. The contract names the result: a
/// function of the path text alone (a parent of a path given as text is a
/// prefix of it, so it converts back to text unchanged).
#[verifier::external_body]
pub(crate) fn parent_path(p: &str) -> (r: Option<String>)
    ensures
        match r {
            Some(q) => path_parent(p@) == Some(q@),
            None => path_parent(p@) is None,
        },
{
    std::path::Path::new(p).parent().map(|q| q.to_string_lossy().into_owned())
}

/// What creating a download folder comes to.
#[derive(Debug, PartialEq, Eq)]
pub enum DirAction {
    /// The folder exists already: nothing to do.
    AlreadyThere,
    /// Create the folder (its parent exists).
    Create,
}

/// The folder whose existence decides whether `path` may be created, when
/// there is one to look at: `None` when `path` has no parent, or its parent
/// is the current folder.
pub open spec fn parent_to_check_spec(path: Seq<char>) -> Option<Seq<char>> {
    match path_parent(path) {
        Some(q) => if q.len() > 0 { Some(q) } else { None },
        None => None,
    }
}

/// The folder to look at before creating `path` (see
/// `parent_to_check_spec`).
pub fn parent_to_check(path: &str) -> (r: Option<String>)
    ensures
        match r {
            Some(q) => parent_to_check_spec(path@) == Some(q@),
            None => parent_to_check_spec(path@) is None,
        },
{
    match parent_path(path) {
        Some(q) => if q.as_str().is_empty() {
            None
        } else {
            Some(q)
        },
        None => None,
    }
}

/// The error for a folder whose parent does not exist.
pub open spec fn missing_parent_message(parent: Seq<char>) -> Seq<char> {
    "Parent directory '"@ + path_debug(parent)
        + "' does not exist. Only 1-level directory creation is supported."@
}

/// The error for a path that has no parent.
pub open spec fn invalid_path_message(path: Seq<char>) -> Seq<char> {
    "Invalid path '"@ + path_debug(path) + "'"@
}

/// The decision of `create_dir_one_level`.
pub open spec fn dir_decision(path: Seq<char>, exists: bool, parent_exists: bool) -> Result<DirAction, Seq<char>> {
    if exists {
        Ok(DirAction::AlreadyThere)
    } else {
        match path_parent(path) {
            None => Err(invalid_path_message(path)),
            Some(q) => if q.len() == 0 || parent_exists {
                Ok(DirAction::Create)
            } else {
                Err(missing_parent_message(q))
            },
        }
    }
}

/// Enforces the rule that a download folder is created at most one level
/// deep: nothing to do when `path` exists; otherwise it is created only if
/// its parent exists (the current folder always does). `exists` tells
/// whether `path` exists, and `parent_exists` whether the folder named by
/// `parent_to_check` exists.
pub fn create_dir_one_level(path: &str, exists: bool, parent_exists: bool) -> (r: Result<DirAction, String>)
    ensures
        match (r, dir_decision(path@, exists, parent_exists)) {
            (Ok(a), Ok(b)) => a == b,
            (Err(e), Err(f)) => e@ == f,
            _ => false,
        },
{
    if exists {
        return Ok(DirAction::AlreadyThere);
    }
    match parent_path(path) {
        None => {
            let mut cs = chars_of("Invalid path '");
            let shown = debug_path(path);
            append_str(&mut cs, shown.as_str());
            append_str(&mut cs, "'");
            Err(string_of(&cs))
        },
        Some(q) => {
            if q.as_str().is_empty() || parent_exists {
                Ok(DirAction::Create)
            } else {
                let mut cs = chars_of("Parent directory '");
                let shown = debug_path(q.as_str());
                append_str(&mut cs, shown.as_str());
                append_str(&mut cs, "' does not exist. Only 1-level directory creation is supported.");
                Err(string_of(&cs))
            }
        },
    }
}

/// The error for a folder that could not be created, with the I/O error
/// text.
pub fn create_dir_error(path: &str, error: &str) -> (r: String)
    ensures
        r@ == "Failed to create directory '"@ + path_debug(path@) + "': "@ + error@,
{
    let mut cs = chars_of("Failed to create directory '");
    let shown = debug_path(path);
    append_str(&mut cs, shown.as_str());
    append_str(&mut cs, "': ");
    append_str(&mut cs, error);
    string_of(&cs)
}

} // verus!
