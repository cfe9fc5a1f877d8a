//! Turning a request path into an object key.
use vstd::prelude::*;
use vstd::string::*;
use crate::text::chars_of;

verus! {

/// Whether the last segment of `path` (what follows its last `/`) holds a dot.
pub open spec fn final_segment_has_dot(path: Seq<char>) -> bool {
    exists|k: int|
        0 <= k < path.len() && #[trigger] path[k] == '.' && forall|j: int|
            k < j < path.len() ==> path[j] != '/'
}

/// A path that names a directory rather than a file: it ends with `/`, or its
/// last segment has no dot.
pub open spec fn is_directory_like(path: Seq<char>) -> bool {
    (path.len() > 0 && path.last() == '/') || !final_segment_has_dot(path)
}

/// The path without its leading `/`.
pub open spec fn stem_of(path: Seq<char>) -> Seq<char> {
    if path.len() > 0 && path[0] == '/' {
        path.drop_first()
    } else {
        path
    }
}

/// `stem` followed by `object`, with a `/` between them unless `stem` already
/// ends with one.
pub open spec fn join_object(stem: Seq<char>, object: Seq<char>) -> Seq<char> {
    if stem.len() > 0 && stem.last() == '/' {
        stem + object
    } else {
        stem + seq!['/'] + object
    }
}

/// The object key for `path`, given the default object for the root and the
/// default object for directories; `None` when there is nothing to fetch.
pub open spec fn resolved_key(
    path: Seq<char>,
    root_object: Option<Seq<char>>,
    subdir_root_object: Option<Seq<char>>,
) -> Option<Seq<char>> {
    if path.len() == 0 || path == seq!['/'] {
        root_object
    } else if is_directory_like(path) {
        match subdir_root_object {
            Some(object) => Some(join_object(stem_of(path), object)),
            None => Some(stem_of(path)),
        }
    } else {
        Some(stem_of(path))
    }
}

pub open spec fn opt_view(o: Option<String>) -> Option<Seq<char>> {
    match o {
        Some(s) => Some(s@),
        None => None,
    }
}

fn final_segment_has_dot_exec(path: &Vec<char>) -> (r: bool)
    ensures
        r == final_segment_has_dot(path@),
{
    let mut i: usize = path.len();
    while i > 0
        invariant
            i <= path@.len(),
            forall|j: int| i <= j < path@.len() ==> path@[j] != '/' && path@[j] != '.',
        decreases i,
    {
        let c = path[i - 1];
        if c == '/' {
            assert forall|k: int| 0 <= k < path@.len() && #[trigger] path@[k] == '.' implies exists|
                j: int,
            | k < j < path@.len() && path@[j] == '/' by {
                assert(path@[i - 1] == '/');
            }
            return false;
        }
        if c == '.' {
            assert(path@[i - 1] == '.');
            return true;
        }
        i = i - 1;
    }
    false
}

/// The object key for a request path. The root path (`/` or empty) maps to
/// `root_object` as it is; a directory-like path maps to its stem joined with
/// `subdir_root_object`, or to the stem alone; any other path maps to its stem.
pub fn get_object_key(
    path: &str,
    root_object: &Option<String>,
    subdir_root_object: &Option<String>,
) -> (r: Option<String>)
    ensures
        opt_view(r) == resolved_key(path@, opt_view(*root_object), opt_view(*subdir_root_object)),
{
    proof {
        reveal_strlit("/");
    }
    let chars = chars_of(path);
    let n = chars.len();
    if n == 0 || (n == 1 && chars[0] == '/') {
        assert(n == 1 ==> path@ =~= seq!['/']);
        return match root_object {
            Some(root) => Some(root.clone()),
            None => None,
        };
    }
    assert(path@ != seq!['/']) by {
        if path@ == seq!['/'] {
            assert(path@.len() == 1 && path@[0] == '/');
        }
    }
    let stem_str = if chars[0] == '/' {
        path.substring_char(1, n)
    } else {
        path
    };
    assert(stem_str@ =~= stem_of(path@));
    let mut key = String::from_str(stem_str);
    let directory_like = chars[n - 1] == '/' || !final_segment_has_dot_exec(&chars);
    if directory_like {
        match subdir_root_object {
            Some(object) => {
                let ends_with_slash = chars[n - 1] == '/';
                assert(ends_with_slash == (key@.len() > 0 && key@.last() == '/'));
                if !ends_with_slash {
                    key.append("/");
                }
                key.append(object.as_str());
                assert(key@ =~= join_object(stem_of(path@), object@));
            },
            None => {},
        }
    }
    Some(key)
}

/// The root path maps to the root default object itself, whatever the
/// directory default is; with no root default there is no key.
pub proof fn lemma_root_path_gives_root_object(
    root_object: Option<Seq<char>>,
    subdir_root_object: Option<Seq<char>>,
)
    ensures
        resolved_key("/"@, root_object, subdir_root_object) == root_object,
        resolved_key(Seq::<char>::empty(), root_object, subdir_root_object) == root_object,
{
    reveal_strlit("/");
    assert("/"@ =~= seq!['/']);
}

/// Away from the root path, the root default object plays no part.
pub proof fn lemma_root_object_irrelevant_elsewhere(
    path: Seq<char>,
    root_object: Option<Seq<char>>,
    other_root_object: Option<Seq<char>>,
    subdir_root_object: Option<Seq<char>>,
)
    requires
        path.len() > 0,
        path != seq!['/'],
    ensures
        resolved_key(path, root_object, subdir_root_object) == resolved_key(
            path,
            other_root_object,
            subdir_root_object,
        ),
        resolved_key(path, root_object, subdir_root_object) is Some,
{
}

} // verus!
