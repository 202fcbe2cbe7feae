//! The file names the loader looks for: schema files by their extension,
//! and the wasm binary that belongs to a schema file.

use vstd::prelude::*;
use crate::text::{concat, find_last_char};

verus! {

/// The position of the dot that starts a file name's extension: the last
/// dot, unless it is the first char or the name is `..`.
pub open spec fn extension_dot(f: Seq<char>) -> Option<int> {
    if f == seq!['.', '.'] {
        None
    } else {
        match find_last_char(f, '.', f.len() as int) {
            Some(i) => if i > 0 {
                Some(i)
            } else {
                None
            },
            None => None,
        }
    }
}

/// `Path::extension` of a file name: what follows its extension dot.
pub open spec fn file_extension(f: Seq<char>) -> Option<Seq<char>> {
    match extension_dot(f) {
        Some(i) => Some(f.skip(i + 1)),
        None => None,
    }
}

/// `Path::file_stem` of a file name: what precedes its extension dot, the
/// whole name when it has none.
pub open spec fn file_stem(f: Seq<char>) -> Seq<char> {
    match extension_dot(f) {
        Some(i) => f.take(i),
        None => f,
    }
}

proof fn lemma_find_last_char_bounds(s: Seq<char>, c: char, upto: int)
    ensures
        find_last_char(s, c, upto) matches Some(i) ==> 0 <= i < upto <= s.len() && s[i] == c,
    decreases upto,
{
    if 0 < upto <= s.len() && s[upto - 1] != c {
        lemma_find_last_char_bounds(s, c, upto - 1);
    }
}

/// The position of the extension dot of a file name.
fn extension_dot_of(f: &str) -> (r: Option<usize>)
    ensures
        match r {
            Some(i) => extension_dot(f@) == Some(i as int) && i < f@.len(),
            None => extension_dot(f@) is None,
        },
{
    let n = f.unicode_len();
    if n == 2 && f.get_char(0) == '.' && f.get_char(1) == '.' {
        assert(f@ =~= seq!['.', '.']);
        return None;
    }
    assert(f@ != seq!['.', '.']) by {
        if f@ == seq!['.', '.'] {
            assert(f@[0] == seq!['.', '.'][0] && f@[1] == seq!['.', '.'][1]);
        }
    }
    let mut i: usize = n;
    while i > 0
        invariant
            n == f@.len(),
            i <= n,
            f@ != seq!['.', '.'],
            find_last_char(f@, '.', n as int) == find_last_char(f@, '.', i as int),
        decreases i,
    {
        if f.get_char(i - 1) == '.' {
            if i - 1 > 0 {
                return Some(i - 1);
            } else {
                return None;
            }
        }
        i = i - 1;
    }
    None
}

/// Whether a file name has the extension `json`, the schema files the
/// loader reads.
pub fn is_json_file(file_name: &str) -> (r: bool)
    ensures
        r == (file_extension(file_name@) == Some("json"@)),
{
    proof {
        reveal_strlit("json");
    }
    match extension_dot_of(file_name) {
        Some(i) => {
            let n = file_name.unicode_len();
            let ext = file_name.substring_char(i + 1, n);
            assert(ext@ == file_name@.skip(i + 1));
            let r = ext.unicode_len() == 4 && ext.get_char(0) == 'j' && ext.get_char(1) == 's'
                && ext.get_char(2) == 'o' && ext.get_char(3) == 'n';
            assert(r ==> ext@ =~= "json"@);
            assert(ext@ == "json"@ ==> r) by {
                if ext@ == "json"@ {
                    assert(ext@[0] == 'j' && ext@[1] == 's' && ext@[2] == 'o' && ext@[3] == 'n');
                }
            }
            r
        },
        None => false,
    }
}

/// The stem of a file name.
fn stem_of(f: &str) -> (r: String)
    ensures
        r@ == file_stem(f@),
{
    match extension_dot_of(f) {
        Some(i) => f.substring_char(0, i).to_owned(),
        None => f.to_owned(),
    }
}

/// Where, relative to the schema directory, the wasm binary built from a
/// contract with this schema file is looked for: the path
/// `artifacts/<stem>` with its extension set to `wasm`. As `Path` reads it, a
/// stem `.` adds nothing to `artifacts`, so the extension lands on
/// `artifacts` itself; a stem `..` leaves no file name to set an extension
/// on; any other stem loses its own extension to `wasm`.
pub open spec fn artifact_relative_path(f: Seq<char>) -> Seq<char> {
    let stem = file_stem(f);
    if stem == seq!['.'] {
        "artifacts.wasm"@
    } else if stem == seq!['.', '.'] {
        "artifacts/.."@
    } else {
        "artifacts/"@ + file_stem(stem) + ".wasm"@
    }
}

/// The path, relative to the schema directory, of the wasm binary that
/// belongs to the schema file of this name.
pub fn artifact_path(schema_file_name: &str) -> (r: String)
    requires
        file_extension(schema_file_name@) == Some("json"@),
    ensures
        r@ == artifact_relative_path(schema_file_name@),
{
    let stem = stem_of(schema_file_name);
    let n = stem.unicode_len();
    if n == 1 && stem.as_str().get_char(0) == '.' {
        assert(stem@ =~= seq!['.']);
        return "artifacts.wasm".to_owned();
    }
    assert(stem@ != seq!['.']) by {
        if stem@ == seq!['.'] {
            assert(stem@[0] == seq!['.'][0]);
        }
    }
    if n == 2 && stem.as_str().get_char(0) == '.' && stem.as_str().get_char(1) == '.' {
        assert(stem@ =~= seq!['.', '.']);
        return "artifacts/..".to_owned();
    }
    assert(stem@ != seq!['.', '.']) by {
        if stem@ == seq!['.', '.'] {
            assert(stem@[0] == seq!['.', '.'][0] && stem@[1] == seq!['.', '.'][1]);
        }
    }
    let base = stem_of(stem.as_str());
    let dir_and_base = concat("artifacts/", base.as_str());
    concat(dir_and_base.as_str(), ".wasm")
}

/// `PathBuf::join` of a relative file name: a `/` goes between unless the
/// directory is empty or already ends with one.
pub open spec fn joined_path(dir: Seq<char>, name: Seq<char>) -> Seq<char> {
    if dir.len() == 0 || dir[dir.len() - 1] == '/' {
        dir + name
    } else {
        dir + seq!['/'] + name
    }
}

/// The path of the file `name` in the directory `dir`.
pub fn join_path(dir: &str, name: &str) -> (r: String)
    ensures
        r@ == joined_path(dir@, name@),
{
    proof {
        reveal_strlit("/");
    }
    let n = dir.unicode_len();
    if n == 0 || dir.get_char(n - 1) == '/' {
        concat(dir, name)
    } else {
        let with_sep = concat(dir, "/");
        concat(with_sep.as_str(), name)
    }
}

/// The directory part of a file path, with its trailing `/`: everything up to
/// and including the last `/`; empty when there is none.
pub open spec fn containing_dir(p: Seq<char>) -> Seq<char> {
    match find_last_char(p, '/', p.len() as int) {
        Some(i) => p.take(i + 1),
        None => Seq::empty(),
    }
}

/// The path of the file `name` in the directory that holds the file `file`.
pub fn sibling_path(file: &str, name: &str) -> (r: String)
    ensures
        r@ == containing_dir(file@) + name@,
{
    let n = file.unicode_len();
    let mut i: usize = n;
    while i > 0
        invariant
            n == file@.len(),
            i <= n,
            find_last_char(file@, '/', n as int) == find_last_char(file@, '/', i as int),
        decreases i,
    {
        if file.get_char(i - 1) == '/' {
            return concat(file.substring_char(0, i), name);
        }
        i = i - 1;
    }
    assert(Seq::<char>::empty() + name@ =~= name@);
    name.to_owned()
}

} // verus!
