//! On-disk cache for posters and metadata. Keys are sanitized before they ever
//! touch the filesystem so a hostile provider id cannot escape the cache dir.

use crate::errors::{Error, Result};
use crate::text;
use vstd::prelude::*;

verus! {

/// A directory whose files are named by sanitized keys.
pub struct Cache {
    root: String,
}

/// The characters that a file name keeps.
pub open spec fn safe_char(c: char) -> bool {
    ('A' <= c <= 'Z') || ('a' <= c <= 'z') || ('0' <= c <= '9') || c == '.' || c == '_' || c == '-'
}

/// `key` with every other character replaced.
pub open spec fn replaced(key: Seq<char>) -> Seq<char> {
    key.map_values(
        |c: char|
            if safe_char(c) {
                c
            } else {
                '_'
            },
    )
}

/// The names that are no file of their own: none, the directory and its parent.
pub open spec fn no_file(s: Seq<char>) -> bool {
    s.len() == 0 || s == seq!['.'] || s == seq!['.', '.']
}

/// The file name that stands for a key.
pub open spec fn sanitized(key: Seq<char>) -> Seq<char> {
    if no_file(replaced(key)) {
        seq!['_']
    } else {
        replaced(key)
    }
}

impl Cache {
    /// The directory of the cache.
    pub closed spec fn dir(&self) -> Seq<char> {
        self.root@
    }

    /// A cache in the directory `root`; `created` says whether the directory is there
    /// or could be made.
    pub fn new(root: &str, created: std::result::Result<(), String>) -> (r: Result<Self>)
        ensures
            match (r, created) {
                (Ok(c), Ok(_)) => c.dir() == root@,
                (Err(e), Err(m)) => e@ == crate::errors::Fault::Io(m@),
                _ => false,
            },
    {
        match created {
            Ok(_) => Ok(Cache { root: root.to_string() }),
            Err(m) => Err(Error::Io(m)),
        }
    }

    /// Where the file of a key is.
    pub fn path_for(&self, key: &str) -> (r: String)
        ensures
            r@ == text::path_join(self.dir(), sanitized(key@)),
    {
        text::joined_path(self.root.as_str(), sanitize_key(key).as_str())
    }

    pub fn root(&self) -> (r: &str)
        ensures
            r@ == self.dir(),
    {
        self.root.as_str()
    }
}

/// Reduce an arbitrary identifier to a safe single filename component:
/// keep `[A-Za-z0-9._-]`, replace everything else with `_`, and never allow
/// `.`/`..` or path separators through.
pub fn sanitize_key(key: &str) -> (r: String)
    ensures
        r@ == sanitized(key@),
{
    let key = text::chars_of(key);
    let mut out: Vec<char> = Vec::new();
    let mut i: usize = 0;
    while i < key.len()
        invariant
            i <= key@.len(),
            out@ == replaced(key@.take(i as int)),
        decreases key@.len() - i,
    {
        let c = key[i];
        let kept = ('A' <= c && c <= 'Z') || ('a' <= c && c <= 'z') || ('0' <= c && c <= '9') || c
            == '.' || c == '_' || c == '-';
        let next = if kept {
            c
        } else {
            '_'
        };
        out.push(next);
        assert(replaced(key@.take(i + 1)) =~= replaced(key@.take(i as int)).push(next));
        i = i + 1;
    }
    assert(key@.take(key@.len() as int) =~= key@);
    let dots = out.len() == 0 || (out.len() == 1 && out[0] == '.') || (out.len() == 2 && out[0]
        == '.' && out[1] == '.');
    proof {
        if out@.len() == 1 && out@[0] == '.' {
            assert(out@ =~= seq!['.']);
        }
        if out@.len() == 2 && out@[0] == '.' && out@[1] == '.' {
            assert(out@ =~= seq!['.', '.']);
        }
    }
    if dots {
        let mut s = String::new();
        s.push('_');
        assert(s@ =~= seq!['_']);
        s
    } else {
        text::string_of(out.as_slice())
    }
}

/// A sanitized key is one file name: it holds only safe characters, so no path
/// separator, and is neither empty nor a name for a directory.
pub proof fn law_sanitized_is_one_component(key: Seq<char>)
    ensures
        !no_file(sanitized(key)),
        !sanitized(key).contains('/'),
        !sanitized(key).contains('\\'),
        forall|i: int| 0 <= i < sanitized(key).len() ==> safe_char(#[trigger] sanitized(key)[i]),
{
    assert(seq!['_'][0] == '_');
    assert(seq!['_'].len() == 1);
    assert(seq!['.', '.'].len() == 2);
    assert(seq!['.'][0] == '.');
}

/// Letters, digits, dots, underscores and hyphens of a key are kept, each in its place,
/// and every other character becomes an underscore.
pub proof fn law_sanitized_in_place(key: Seq<char>, i: int)
    requires
        !no_file(replaced(key)),
        0 <= i < key.len(),
    ensures
        sanitized(key).len() == key.len(),
        ('a' <= key[i] <= 'z') || ('A' <= key[i] <= 'Z') || ('0' <= key[i] <= '9') || key[i] == '.'
            || key[i] == '_' || key[i] == '-' ==> sanitized(key)[i] == key[i],
        !(('a' <= key[i] <= 'z') || ('A' <= key[i] <= 'Z') || ('0' <= key[i] <= '9') || key[i] == '.'
            || key[i] == '_' || key[i] == '-') ==> sanitized(key)[i] == '_',
{
}

/// Sanitizing a sanitized key changes nothing, and neither does sanitizing a key of
/// safe characters that is a file name already.
pub proof fn law_sanitize_keeps_safe(key: Seq<char>)
    ensures
        sanitized(sanitized(key)) == sanitized(key),
        (forall|i: int| 0 <= i < key.len() ==> safe_char(#[trigger] key[i])) && !no_file(key)
            ==> sanitized(key) == key,
{
    law_sanitized_is_one_component(key);
    let s = sanitized(key);
    assert(replaced(s) =~= s);
    if forall|i: int| 0 <= i < key.len() ==> safe_char(#[trigger] key[i]) {
        assert(replaced(key) =~= key);
    }
}

} // verus!
