//! Files: paths, and looking for one that is there.

use vstd::prelude::*;
use vstd::string::*;

use crate::lists::texts;
use crate::text::chars_of;

verus! {

/// A path below a directory. One that starts at the root stays as it is.
pub open spec fn below(dir: Seq<char>, path: Seq<char>) -> Seq<char> {
    if path.len() > 0 && path.first() == '/' {
        path
    } else if dir.len() == 0 || dir.last() == '/' {
        dir + path
    } else {
        dir + "/"@ + path
    }
}

/// A path below a directory.
pub fn join_path(dir: &str, path: &str) -> (r: String)
    ensures
        r@ == below(dir@, path@),
{
    let d = chars_of(dir);
    let p = chars_of(path);
    if p.len() > 0 && p[0] == '/' {
        return path.to_owned();
    }
    let mut r = dir.to_owned();
    if d.len() > 0 && d[d.len() - 1] != '/' {
        r.append("/");
    }
    r.append(path);
    r
}

/// Whether a look at a path may have given this answer.
pub open spec fn answered<F: Fn(&str) -> bool>(look: F, path: Seq<char>, answer: bool) -> bool {
    exists|p: &str| p@ == path && #[trigger] look.ensures((p,), answer)
}

/// Whether a look can be taken at every path.
pub open spec fn can_look<F: Fn(&str) -> bool>(look: F) -> bool {
    forall|p: &str| #[trigger] look.requires((p,))
}

/// Whether a search along some paths may have ended like this: at the first path
/// where the answer was yes, or nowhere.
pub open spec fn searched<F: Fn(&str) -> bool>(
    look: F,
    paths: Seq<Seq<char>>,
    found: Option<int>,
) -> bool {
    match found {
        Some(i) => {
            &&& 0 <= i < paths.len()
            &&& answered(look, paths[i], true)
            &&& forall|j: int| 0 <= j < i ==> answered(look, #[trigger] paths[j], false)
        },
        None => forall|j: int| 0 <= j < paths.len() ==> answered(look, #[trigger] paths[j], false),
    }
}

/// Look along some paths, in order, up to the first where the answer is yes.
pub fn search<F: Fn(&str) -> bool>(paths: &Vec<String>, look: &F) -> (r: Option<usize>)
    requires
        can_look(*look),
    ensures
        searched(
            *look,
            texts(paths@),
            match r {
                Some(i) => Some(i as int),
                None => None,
            },
        ),
{
    let mut i: usize = 0;
    while i < paths.len()
        invariant
            i <= paths.len(),
            can_look(*look),
            forall|j: int| 0 <= j < i ==> answered(*look, #[trigger] texts(paths@)[j], false),
        decreases paths.len() - i,
    {
        let path = paths[i].as_str();
        assert(path@ == texts(paths@)[i as int]);
        if look(path) {
            return Some(i);
        }
        i += 1;
    }
    None
}

/// A path below a directory starts with the directory and ends with the path, with
/// one slash between them: the directory's own where it ends in one, and none where
/// there is no directory. A path that starts at the root is not put below anything.
pub proof fn paths_below_start_with_the_directory(dir: Seq<char>, path: Seq<char>)
    ensures
        path.len() > 0 && path[0] == '/' ==> below(dir, path) == path,
        !(path.len() > 0 && path[0] == '/') ==> {
            let whole = below(dir, path);
            let between = whole.len() - dir.len() - path.len();
            &&& dir.is_prefix_of(whole)
            &&& path.is_suffix_of(whole)
            &&& 0 <= between <= 1
            &&& between == 1 ==> whole[dir.len() as int] == '/'
            &&& between == 0 <==> (dir.len() == 0 || dir[dir.len() - 1] == '/')
        },
{
    reveal_strlit("/");
}

/// A search ends at the first path where the answer is yes: not behind a path where
/// it can only be yes, never at one where it can only be no, and nowhere only where
/// it may be no everywhere.
pub proof fn searches_end_at_the_first<F: Fn(&str) -> bool>(
    look: F,
    paths: Seq<Seq<char>>,
    found: Option<int>,
    i: int,
)
    requires
        searched(look, paths, found),
        0 <= i < paths.len(),
    ensures
        !answered(look, paths[i], false) ==> found is Some && found->0 <= i,
        !answered(look, paths[i], true) ==> found != Some(i),
        found is Some ==> 0 <= found->0 < paths.len() && answered(look, paths[found->0], true),
{
}

} // verus!
