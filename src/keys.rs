//! Key mapping and path validation.
use vstd::prelude::*;
use vstd::string::*;

verus! {

/// `prefix` and `name` joined with exactly one `/` between them; an empty
/// prefix leaves `name` as it is.
pub open spec fn join(prefix: Seq<char>, name: Seq<char>) -> Seq<char> {
    if prefix.len() == 0 {
        name
    } else if prefix.last() == '/' {
        prefix + name
    } else {
        prefix + seq!['/'] + name
    }
}

/// A path is refused when it starts with the separator.
pub open spec fn starts_with_sep(path: Seq<char>) -> bool {
    path.len() > 0 && path[0] == '/'
}

/// The text of the error for a refused path.
pub open spec fn invalid_path_message(path: Seq<char>) -> Seq<char> {
    "Invalid path "@ + path
}

/// What follows the last `/` of `key` (all of it when there is none).
pub open spec fn base_name(key: Seq<char>) -> Seq<char>
    decreases key.len(),
{
    if key.len() == 0 {
        key
    } else if key.last() == '/' {
        Seq::empty()
    } else {
        base_name(key.drop_last()).push(key.last())
    }
}

/// `key` without the separators at its end.
pub open spec fn trim_seps(key: Seq<char>) -> Seq<char>
    decreases key.len(),
{
    if key.len() > 0 && key.last() == '/' {
        trim_seps(key.drop_last())
    } else {
        key
    }
}

/// The names `.` and `..`, which stand for a folder and its parent.
pub open spec fn is_dot_name(name: Seq<char>) -> bool {
    name == seq!['.'] || name == seq!['.', '.']
}

/// The file name of a key: its last path component, separators at the end
/// ignored. A key with no such component (empty, only separators) or whose
/// last component is `.` or `..` has none.
pub open spec fn file_name(key: Seq<char>) -> Option<Seq<char>> {
    let name = base_name(trim_seps(key));
    if name.len() == 0 || is_dot_name(name) {
        None
    } else {
        Some(name)
    }
}

/// The store's form of an object's location: `bucket/key`.
pub open spec fn location(bucket: Seq<char>, key: Seq<char>) -> Seq<char> {
    bucket + seq!['/'] + key
}

/// Joins a folder path and a file name into an object key.
pub fn make_key(folder_path: &str, file_name: &str) -> (key: String)
    ensures
        key@ == join(folder_path@, file_name@),
{
    let mut key = String::new();
    key.append(folder_path);
    let n = folder_path.unicode_len();
    if n > 0 && folder_path.get_char(n - 1) != '/' {
        proof {
            reveal_strlit("/");
        }
        key.append("/");
    }
    key.append(file_name);
    proof {
        if n > 0 {
            assert(folder_path@.last() == folder_path@[n - 1]);
        }
    }
    key
}

/// Checks that a path does not start with the separator.
pub fn is_key_valid(object_key: &str) -> (r: Result<(), String>)
    ensures
        r is Ok <==> !starts_with_sep(object_key@),
        r matches Err(msg) ==> msg@ == invalid_path_message(object_key@),
{
    let n = object_key.unicode_len();
    if n > 0 && object_key.get_char(0) == '/' {
        let mut msg = String::from_str("Invalid path ");
        msg.append(object_key);
        Err(msg)
    } else {
        Ok(())
    }
}

/// Checks both paths of a migration, the source path first.
pub fn validate_paths(source_path: &str, destination_path: &str) -> (r: Result<(), String>)
    ensures
        r is Ok <==> !starts_with_sep(source_path@) && !starts_with_sep(destination_path@),
        r matches Err(msg) ==> (if starts_with_sep(source_path@) {
            msg@ == invalid_path_message(source_path@)
        } else {
            msg@ == invalid_path_message(destination_path@)
        }),
{
    is_key_valid(source_path)?;
    is_key_valid(destination_path)
}

/// The text of the error for a move onto its own source folder.
pub open spec fn same_location_message(bucket: Seq<char>, path: Seq<char>) -> Seq<char> {
    "Source and destination are the same: "@ + location(bucket, path)
}

/// Two folders are the same when they are in one bucket and keys joined to
/// them come out equal (`in` and `in/` are one folder).
pub open spec fn same_folder(
    source_bucket: Seq<char>,
    source_path: Seq<char>,
    destination_bucket: Seq<char>,
    destination_path: Seq<char>,
) -> bool {
    source_bucket == destination_bucket && join(source_path, Seq::empty()) == join(
        destination_path,
        Seq::empty(),
    )
}

/// Refuses a migration whose destination is its own source folder.
pub fn validate_locations(
    source_bucket: &str,
    source_path: &str,
    destination_bucket: &str,
    destination_path: &str,
) -> (r: Result<(), String>)
    ensures
        r is Ok <==> !same_folder(source_bucket@, source_path@, destination_bucket@, destination_path@),
        r matches Err(msg) ==> msg@ == same_location_message(source_bucket@, source_path@),
{
    let sb = String::from_str(source_bucket);
    let db = String::from_str(destination_bucket);
    let sf = make_key(source_path, "");
    let df = make_key(destination_path, "");
    proof {
        reveal_strlit("");
        assert(""@ =~= Seq::<char>::empty());
    }
    if sb == db && sf == df {
        let mut msg = String::from_str("Source and destination are the same: ");
        let loc = copy_source(source_bucket, source_path);
        msg.append(loc.as_str());
        Err(msg)
    } else {
        Ok(())
    }
}

/// The file name of an object key, if it has one.
pub fn file_name_of(key: &str) -> (name: Option<String>)
    ensures
        match name {
            Some(s) => file_name(key@) == Some(s@),
            None => file_name(key@) is None,
        },
{
    let n = key.unicode_len();
    let mut j: usize = n;
    assert(key@.subrange(0, n as int) =~= key@);
    while j > 0 && key.get_char(j - 1) == '/'
        invariant
            j <= n,
            n == key@.len(),
            trim_seps(key@) == trim_seps(key@.subrange(0, j as int)),
        decreases j,
    {
        assert(key@.subrange(0, j as int).drop_last() =~= key@.subrange(0, j - 1));
        j = j - 1;
    }
    let ghost stem = key@.subrange(0, j as int);
    proof {
        if j > 0 {
            assert(stem.last() == key@[j - 1]);
        }
        assert(trim_seps(stem) == stem);
        assert(stem.subrange(0, j as int) =~= stem);
        assert(key@.subrange(j as int, j as int) =~= Seq::<char>::empty());
        assert(base_name(stem) =~= base_name(key@.subrange(0, j as int)) + key@.subrange(j as int, j as int));
    }
    let mut i: usize = j;
    while i > 0 && key.get_char(i - 1) != '/'
        invariant
            i <= j,
            j <= n,
            n == key@.len(),
            stem == key@.subrange(0, j as int),
            base_name(stem) == base_name(key@.subrange(0, i as int)) + key@.subrange(i as int, j as int),
        decreases i,
    {
        let ghost pre = key@.subrange(0, i as int);
        assert(pre.drop_last() =~= key@.subrange(0, i - 1));
        assert(key@.subrange(i - 1, j as int) =~= seq![pre.last()] + key@.subrange(i as int, j as int));
        assert(base_name(pre) == base_name(pre.drop_last()).push(pre.last()));
        assert(base_name(pre.drop_last()).push(pre.last()) + key@.subrange(i as int, j as int)
            =~= base_name(pre.drop_last()) + key@.subrange(i - 1, j as int));
        i = i - 1;
    }
    proof {
        if i == 0 {
            assert(key@.subrange(0, 0) =~= Seq::<char>::empty());
        } else {
            let pre = key@.subrange(0, i as int);
            assert(pre.last() == '/');
        }
        assert(base_name(stem) =~= key@.subrange(i as int, j as int));
    }
    let s = key.substring_char(i, j);
    let len = j - i;
    let dot1 = len == 1 && s.get_char(0) == '.';
    let dot2 = len == 2 && s.get_char(0) == '.' && s.get_char(1) == '.';
    proof {
        if dot1 {
            assert(s@ =~= seq!['.']);
        }
        if dot2 {
            assert(s@ =~= seq!['.', '.']);
        }
        if s@ == seq!['.'] {
            assert(s@[0] == '.');
        }
        if s@ == seq!['.', '.'] {
            assert(s@[0] == '.' && s@[1] == '.');
        }
    }
    if len == 0 || dot1 || dot2 {
        None
    } else {
        Some(String::from_str(s))
    }
}

/// The `copy_source` argument of a copy: `bucket/key`.
pub fn copy_source(bucket: &str, key: &str) -> (src: String)
    ensures
        src@ == location(bucket@, key@),
{
    let mut src = String::from_str(bucket);
    proof {
        reveal_strlit("/");
    }
    src.append("/");
    src.append(key);
    src
}

} // verus!
