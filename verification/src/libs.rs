//! Where the source of a `use` is looked for: around the file that has it, with
//! that file itself left out, and then among the sources that are shipped.
use vstd::prelude::*;
use crate::text::{chars_of, same, texts};

verus! {

/// A path below another.
pub open spec fn below(dir: Seq<char>, path: Seq<char>) -> Seq<char> {
    if dir.len() == 0 || (path.len() > 0 && path[0] == '/') {
        path
    } else if dir.last() == '/' {
        dir + path
    } else {
        dir + "/"@ + path
    }
}

/// A path below another.
pub fn join_path(dir: &str, path: &str) -> (r: String)
    ensures
        r@ == below(dir@, path@),
{
    let d = chars_of(dir);
    let p = chars_of(path);
    if d.len() == 0 || (p.len() > 0 && p[0] == '/') {
        path.to_owned()
    } else {
        let mut out = dir.to_owned();
        if d[d.len() - 1] != '/' {
            out.append("/");
        }
        out.append(path);
        out
    }
}

/// Finds sources for the `use`s of a program.
#[derive(Debug)]
pub struct FsProvider {
    root: String,
}

impl FsProvider {
    /// The path of the program.
    pub closed spec fn root(self) -> Seq<char> {
        self.root@
    }

    pub fn for_program(source_path: &str) -> (r: FsProvider)
        ensures
            r.root() == source_path@,
    {
        FsProvider { root: source_path.to_owned() }
    }

    /// The file that a `use` stands in: the one that is given, or the program.
    pub fn includer(&self, from: Option<&str>) -> (r: String)
        ensures
            r@ == (match from {
                Some(path) => path@,
                None => self.root(),
            }),
    {
        match from {
            Some(path) => path.to_owned(),
            None => self.root.clone(),
        }
    }
}

/// The paths that the source of a `use` may have, in the order in which they
/// are tried.
pub open spec fn candidate_paths(
    name: Seq<char>,
    parent: Seq<char>,
    shipped: Seq<char>,
) -> Seq<Seq<char>> {
    let file = name + ".lux"@;
    seq![
        below(parent, file),
        below(below(parent, "lib"@), file),
        below(below(below(parent, ".."@), "lib"@), file),
        below(below(shipped, "lib"@), file),
        below(below(shipped, "examples"@), file),
        below(below(shipped, "stdlib"@), file),
    ]
}

/// The paths that the source of a `use` may have: in the directory of the file
/// that has it, in the `lib` in or beside that directory, and among the sources
/// that are shipped.
pub fn candidates(name: &str, parent: &str, shipped: &str) -> (r: Vec<String>)
    ensures
        texts(r@) == candidate_paths(name@, parent@, shipped@),
{
    let mut file = name.to_owned();
    file.append(".lux");
    let lib = join_path(parent, "lib");
    let up = join_path(parent, "..");
    let beside = join_path(up.as_str(), "lib");
    let mut out: Vec<String> = Vec::new();
    out.push(join_path(parent, file.as_str()));
    out.push(join_path(lib.as_str(), file.as_str()));
    out.push(join_path(beside.as_str(), file.as_str()));
    out.push(join_path(join_path(shipped, "lib").as_str(), file.as_str()));
    out.push(join_path(join_path(shipped, "examples").as_str(), file.as_str()));
    out.push(join_path(join_path(shipped, "stdlib").as_str(), file.as_str()));
    assert(texts(out@) =~= candidate_paths(name@, parent@, shipped@));
    out
}

/// Whether a candidate is taken: a file is there, and it is not the one that
/// has the `use`.
pub open spec fn taken(found: Option<String>, includer: Option<Seq<char>>) -> bool {
    match found {
        Some(path) => includer != Some(path@),
        None => false,
    }
}

/// The candidate that is taken: the first at which a file is, by its canonical
/// path, that is not the file that has the `use`.
pub fn pick(found: &Vec<Option<String>>, includer: Option<&str>) -> (r: Option<usize>)
    ensures
        match r {
            Some(i) => {
                &&& i < found@.len()
                &&& taken(
                    found@[i as int],
                    match includer {
                        Some(path) => Some(path@),
                        None => None,
                    },
                )
                &&& forall|k: int|
                    0 <= k < i ==> !taken(
                        #[trigger] found@[k],
                        match includer {
                            Some(path) => Some(path@),
                            None => None,
                        },
                    )
            },
            None => forall|k: int|
                0 <= k < found@.len() ==> !taken(
                    #[trigger] found@[k],
                    match includer {
                        Some(path) => Some(path@),
                        None => None,
                    },
                ),
        },
{
    let mut i: usize = 0;
    while i < found.len()
        invariant
            i <= found@.len(),
            forall|k: int|
                0 <= k < i ==> !taken(
                    #[trigger] found@[k],
                    match includer {
                        Some(path) => Some(path@),
                        None => None,
                    },
                ),
        decreases found@.len() - i,
    {
        match &found[i] {
            Some(path) => {
                let itself = match includer {
                    Some(own) => same(own, path.as_str()),
                    None => false,
                };
                if !itself {
                    return Some(i);
                }
            },
            None => {},
        }
        i = i + 1;
    }
    None
}

} // verus!
