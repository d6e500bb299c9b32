use vstd::prelude::*;

verus! {

/// The final component of a path: everything after the last `/` separator,
/// or the whole path when it holds no separator.
pub open spec fn spec_file_name(path: Seq<char>) -> Seq<char>
    decreases path.len(),
{
    if path.len() == 0 {
        path
    } else if path.last() == '/' {
        Seq::<char>::empty()
    } else {
        spec_file_name(path.drop_last()).push(path.last())
    }
}

/// A path joined to a further component: a `/` separates the two unless the
/// directory is empty or already ends with one.
pub open spec fn spec_join(dir: Seq<char>, name: Seq<char>) -> Seq<char> {
    if dir.len() == 0 {
        name
    } else if dir.last() == '/' {
        dir + name
    } else {
        dir + seq!['/'] + name
    }
}

proof fn lemma_file_name_is_suffix(path: Seq<char>, k: int)
    requires
        0 <= k <= path.len(),
        k == 0 || path[k - 1] == '/',
        forall|j: int| k <= j < path.len() ==> path[j] != '/',
    ensures
        spec_file_name(path) == path.subrange(k, path.len() as int),
    decreases path.len(),
{
    if k == path.len() {
        if path.len() > 0 {
            assert(path.last() == '/');
        }
        assert(path.subrange(k, path.len() as int) =~= Seq::<char>::empty());
        if path.len() == 0 {
            assert(spec_file_name(path) =~= Seq::<char>::empty());
        }
    } else {
        let prefix = path.drop_last();
        assert(path.last() != '/');
        lemma_file_name_is_suffix(prefix, k);
        assert(path.subrange(k, path.len() as int) =~= prefix.subrange(
            k,
            prefix.len() as int,
        ).push(path.last()));
    }
}

/// The final component of `path`: the part after the last `/`, or all of
/// `path` when it holds no `/`.
pub fn file_name_of(path: &str) -> (r: String)
    ensures
        r@ == spec_file_name(path@),
{
    let n = path.unicode_len();
    let mut k = n;
    while k > 0 && path.get_char(k - 1) != '/'
        invariant
            k <= n,
            n == path@.len(),
            forall|j: int| k <= j < n ==> path@[j] != '/',
        decreases k,
    {
        k = k - 1;
    }
    proof {
        lemma_file_name_is_suffix(path@, k as int);
    }
    let tail = path.substring_char(k, n);
    String::from_str(tail)
}

/// Joins a destination directory and a file name with a `/` separator,
/// unless the directory is empty or already ends with one.
pub fn join_path(dir: &str, name: &str) -> (r: String)
    ensures
        r@ == spec_join(dir@, name@),
{
    let n = dir.unicode_len();
    if n == 0 {
        return String::from_str(name);
    }
    let mut r = String::from_str(dir);
    if dir.get_char(n - 1) != '/' {
        r.append("/");
        proof {
            reveal_strlit("/");
            assert(dir@ + "/"@ =~= dir@ + seq!['/']);
        }
    }
    r.append(name);
    proof {
        if dir@.last() != '/' {
            assert(dir@ + seq!['/'] + name@ =~= (dir@ + seq!['/']) + name@);
        }
    }
    r
}

} // verus!
