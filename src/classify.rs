//! Mapping a file name to the directory it is sorted into.
use vstd::prelude::*;
use vstd::string::StringExecFns;
use vstd::string::StrSliceExecFns;

verus! {

/// Index of the last `'.'` in `s`, or `-1` where there is none.
pub open spec fn last_dot(s: Seq<char>) -> int
    decreases s.len(),
{
    if s.len() == 0 {
        -1
    } else if s.last() == '.' {
        s.len() - 1
    } else {
        last_dot(s.drop_last())
    }
}

/// The extension of a file name: what follows its last `'.'`, case kept.
/// A name without a dot, or whose only dot leads it (`.bashrc`), has none.
pub open spec fn extension_of(name: Seq<char>) -> Option<Seq<char>> {
    let i = last_dot(name);
    if i <= 0 {
        None
    } else {
        Some(name.subrange(i + 1, name.len() as int))
    }
}

/// `root` with one more path component appended, a `'/'` between them
/// unless `root` is empty or already ends in one.
pub open spec fn join_spec(root: Seq<char>, component: Seq<char>) -> Seq<char> {
    if root.len() == 0 {
        component
    } else if root.last() == '/' {
        root + component
    } else {
        root + seq!['/'] + component
    }
}

/// The directory under `root` that a file named `name` is sorted into.
pub open spec fn target_dir_spec(root: Seq<char>, name: Seq<char>) -> Option<Seq<char>> {
    match extension_of(name) {
        Some(e) => Some(join_spec(root, e)),
        None => None,
    }
}

proof fn lemma_last_dot_at(s: Seq<char>, k: int)
    requires
        -1 <= k < s.len(),
        k >= 0 ==> s[k] == '.',
        forall|j: int| k < j < s.len() ==> s[j] != '.',
    ensures
        last_dot(s) == k,
    decreases s.len(),
{
    if s.len() > 0 && k < s.len() - 1 {
        lemma_last_dot_at(s.drop_last(), k);
    }
}

/// The extension of `name`, as `extension_of` states it.
pub fn extension(name: &str) -> (r: Option<String>)
    ensures
        r matches Some(e) ==> extension_of(name@) == Some(e@),
        r is None ==> extension_of(name@) is None,
{
    let n = name.unicode_len();
    let mut i: usize = n;
    while i > 0
        invariant
            i <= n,
            n == name@.len(),
            forall|j: int| i <= j < n ==> name@[j] != '.',
        decreases i,
    {
        if name.get_char(i - 1) == '.' {
            proof {
                lemma_last_dot_at(name@, i - 1);
            }
            if i == 1 {
                return None;
            }
            let e = name.substring_char(i, n);
            return Some(String::from_str(e));
        }
        i = i - 1;
    }
    proof {
        lemma_last_dot_at(name@, -1);
    }
    None
}

/// `root` joined with one path component.
pub fn join_path(root: &str, component: &str) -> (r: String)
    ensures
        r@ == join_spec(root@, component@),
{
    let n = root.unicode_len();
    if n == 0 {
        return String::from_str(component);
    }
    let mut r = String::from_str(root);
    if root.get_char(n - 1) != '/' {
        r.append("/");
        proof {
            reveal_strlit("/");
        }
    }
    r.append(component);
    r
}

/// The directory under `root` that the file named `file_name` goes to:
/// `root/<extension>`, or `None` where the name has no extension and the
/// file is skipped.
pub fn target_dir_for_extension(root: &str, file_name: &str) -> (r: Option<String>)
    ensures
        r matches Some(d) ==> target_dir_spec(root@, file_name@) == Some(d@),
        r is None ==> target_dir_spec(root@, file_name@) is None,
{
    match extension(file_name) {
        Some(e) => Some(join_path(root, e.as_str())),
        None => None,
    }
}

} // verus!
