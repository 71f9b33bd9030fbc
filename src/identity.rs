//! Identity of a transfer: the names derived from the path that the sender
//! declares in its first chunk.
use vstd::prelude::*;
use crate::error::TransferError;

verus! {

/// Position of the last `c` among the first `n` characters of `s`, or -1.
pub open spec fn last_index_before(s: Seq<char>, c: char, n: int) -> int
    decreases n,
{
    if n <= 0 {
        -1
    } else if s[n - 1] == c {
        n - 1
    } else {
        last_index_before(s, c, n - 1)
    }
}

/// Position of the last `c` in `s`, or -1.
pub open spec fn last_index_of(s: Seq<char>, c: char) -> int {
    last_index_before(s, c, s.len() as int)
}

/// Where the text of `s[..e]` ends once trailing separators and trailing
/// `/.` components are dropped, as path components are read.
pub open spec fn trim_end_at(s: Seq<char>, e: int) -> int
    decreases e,
{
    if e <= 0 {
        e
    } else if s[e - 1] == '/' {
        trim_end_at(s, e - 1)
    } else if e >= 2 && s[e - 1] == '.' && s[e - 2] == '/' {
        trim_end_at(s, e - 1)
    } else {
        e
    }
}

/// Where the final component of a path ends.
pub open spec fn name_end(p: Seq<char>) -> int {
    trim_end_at(p, p.len() as int)
}

/// Where the final component of a path starts.
pub open spec fn name_start(p: Seq<char>) -> int {
    last_index_before(p, '/', name_end(p)) + 1
}

/// The final component of a path: what follows the last `/` once trailing
/// separators and `/.` components are dropped.
pub open spec fn base_name_of(p: Seq<char>) -> Seq<char> {
    p.subrange(name_start(p), name_end(p))
}

/// The path without its final component, trailing separators and `/.`
/// components dropped; `/` where only the root is left.
pub open spec fn parent_of(p: Seq<char>) -> Seq<char> {
    let e = trim_end_at(p, name_start(p));
    if e <= 0 && p.len() > 0 && p[0] == '/' {
        seq!['/']
    } else {
        p.subrange(0, e)
    }
}

/// The extension of a file name: what follows its last `.`, where that dot
/// is not the name's first character; empty otherwise.
pub open spec fn extension_of(name: Seq<char>) -> Seq<char> {
    if last_index_of(name, '.') > 0 {
        name.subrange(last_index_of(name, '.') + 1, name.len() as int)
    } else {
        Seq::empty()
    }
}

/// A base name that can stand as a file inside the upload root: not empty,
/// and not one of the names `.` and `..` that would leave it.
pub open spec fn is_storable_name(name: Seq<char>) -> bool {
    &&& name.len() > 0
    &&& name != seq!['.']
    &&& name != seq!['.', '.']
}

/// Where a file of the given base name is stored under `root`.
pub open spec fn stored_path_of(root: Seq<char>, name: Seq<char>) -> Seq<char> {
    root + seq!['/'] + name
}

/// Finds the position just after the last `c` among the first `end`
/// characters of `s` (0 where there is none).
fn position_after_last(s: &str, c: char, end: usize) -> (r: usize)
    requires
        end <= s@.len(),
    ensures
        r as int == last_index_before(s@, c, end as int) + 1,
        r <= end,
{
    let mut i = end;
    while i > 0 && s.get_char(i - 1) != c
        invariant
            i <= end <= s@.len(),
            last_index_before(s@, c, i as int) == last_index_before(s@, c, end as int),
        decreases i,
    {
        i = i - 1;
    }
    i
}

/// Tells whether the character before position `e` of `s` is dropped from
/// the end of a path: a separator, or the `.` of a trailing `/.`.
fn drops_last(s: &str, e: usize) -> (r: bool)
    requires
        0 < e <= s@.len(),
    ensures
        r == (s@[e - 1] == '/' || (e >= 2 && s@[e - 1] == '.' && s@[e - 2] == '/')),
{
    let c = s.get_char(e - 1);
    if c == '/' {
        true
    } else if e >= 2 && c == '.' {
        s.get_char(e - 2) == '/'
    } else {
        false
    }
}

/// Finds where `s[..e]` ends once trailing separators and `/.` components
/// are dropped.
fn trim_end(s: &str, e: usize) -> (r: usize)
    requires
        e <= s@.len(),
    ensures
        r as int == trim_end_at(s@, e as int),
        r <= e,
{
    let mut i = e;
    while i > 0 && drops_last(s, i)
        invariant
            i <= e <= s@.len(),
            trim_end_at(s@, i as int) == trim_end_at(s@, e as int),
        decreases i,
    {
        i = i - 1;
    }
    i
}

} // verus!

verus! {

/// The identity of one transfer, derived once from its first chunk.
#[derive(Debug)]
pub struct FileInfo {
    /// Identifies the stored file; the same as `stored_path`.
    pub id: String,
    /// The file's name on the receiver: the base name of the declared path.
    pub name: String,
    /// The path as the sender declared it.
    pub original_path: String,
    /// Where the receiver stores the file.
    pub stored_path: String,
    /// The total size that the sender declared, in bytes.
    pub size: u64,
    /// The extension of the base name, empty where it has none.
    pub extension: String,
    /// The final component of the declared path.
    pub base_name: String,
    /// What precedes the final component of the declared path.
    pub parent_directory: String,
}

impl Clone for FileInfo {
    fn clone(&self) -> (r: FileInfo)
        ensures
            r == *self,
    {
        FileInfo {
            id: self.id.clone(),
            name: self.name.clone(),
            original_path: self.original_path.clone(),
            stored_path: self.stored_path.clone(),
            size: self.size,
            extension: self.extension.clone(),
            base_name: self.base_name.clone(),
            parent_directory: self.parent_directory.clone(),
        }
    }
}

impl FileInfo {
    /// What the identity derived from `path` and `size` under `root` holds.
    pub open spec fn derived_from(self, path: Seq<char>, size: u64, root: Seq<char>) -> bool {
        &&& self.original_path@ == path
        &&& self.base_name@ == base_name_of(path)
        &&& self.name@ == base_name_of(path)
        &&& self.extension@ == extension_of(base_name_of(path))
        &&& self.parent_directory@ == parent_of(path)
        &&& self.stored_path@ == stored_path_of(root, base_name_of(path))
        &&& self.id@ == self.stored_path@
        &&& self.size == size
    }

    /// Derives the identity of a transfer from the path and total size that
    /// its first chunk declares; the file is to be stored under `root` by its
    /// base name alone. Fails where the base name cannot be stored there.
    pub fn from_path(path: &str, size: u64, root: &str) -> (r: Result<FileInfo, TransferError>)
        ensures
            r is Ok <==> is_storable_name(base_name_of(path@)),
            r is Ok ==> r->Ok_0.derived_from(path@, size, root@),
            r is Err ==> r->Err_0 == TransferError::InvalidFileName,
    {
        let len = path.unicode_len();
        let end = trim_end(path, len);
        let start = position_after_last(path, '/', end);
        let base = path.substring_char(start, end);
        if !storable(base) {
            return Err(TransferError::InvalidFileName);
        }
        let parent_end = trim_end(path, start);
        let parent = if parent_end == 0 && len > 0 && path.get_char(0) == '/' {
            let root_sep = "/";
            proof {
                reveal_strlit("/");
                assert(root_sep@ =~= seq!['/']);
            }
            String::from_str(root_sep)
        } else {
            String::from_str(path.substring_char(0, parent_end))
        };
        let base_len = base.unicode_len();
        let dot = position_after_last(base, '.', base_len);
        let extension = if dot > 1 {
            String::from_str(base.substring_char(dot, base_len))
        } else {
            String::new()
        };
        let sep = "/";
        proof {
            reveal_strlit("/");
        }
        let stored = String::from_str(root).concat(sep).concat(base);
        assert(sep@ =~= seq!['/']);
        Ok(FileInfo {
            id: stored.clone(),
            name: String::from_str(base),
            original_path: String::from_str(path),
            stored_path: stored,
            size,
            extension,
            base_name: String::from_str(base),
            parent_directory: parent,
        })
    }
}

/// Tells whether a base name can be stored under the upload root.
fn storable(name: &str) -> (r: bool)
    ensures
        r == is_storable_name(name@),
{
    let n = name.unicode_len();
    if n == 0 {
        false
    } else if n == 1 {
        let c0 = name.get_char(0);
        proof {
            if name@ == seq!['.'] {
                assert(name@[0] == '.');
            }
            if c0 == '.' {
                assert(name@ =~= seq!['.']);
            }
        }
        c0 != '.'
    } else if n == 2 {
        let c0 = name.get_char(0);
        let c1 = name.get_char(1);
        proof {
            if name@ == seq!['.', '.'] {
                assert(name@[0] == '.' && name@[1] == '.');
            }
            if c0 == '.' && c1 == '.' {
                assert(name@ =~= seq!['.', '.']);
            }
        }
        !(c0 == '.' && c1 == '.')
    } else {
        proof {
            assert(name@.len() != seq!['.'].len());
            assert(name@.len() != seq!['.', '.'].len());
        }
        true
    }
}

} // verus!
