use vstd::prelude::*;

use crate::project_map::ProjectMap;

verus! {

/// What `Path::parent` makes of a path: `None` at a root or on the empty path.
pub uninterp spec fn parent_of(p: Seq<char>) -> Option<Seq<char>>;

/// Relies on `std::path::Path::parent`: the parent is a proper prefix of the
/// path, so it is shorter.
#[verifier::external_body]
fn parent_dir(p: &str) -> (r: Option<String>)
    ensures
        r matches Some(q) ==> parent_of(p@) == Some(q@) && q@.len() < p@.len(),
        r is None ==> parent_of(p@) is None,
{
    std::path::Path::new(p).parent().and_then(|q| q.to_str()).map(String::from)
}

/// A relative path appended to `base`, with one separator between them.
pub open spec fn join_spec(base: Seq<char>, rel: Seq<char>) -> Seq<char> {
    if base.len() == 0 {
        rel
    } else if base.last() == '/' {
        base + rel
    } else {
        base + seq!['/'] + rel
    }
}

/// Appends the relative path `rel` to `base`.
pub fn join(base: &str, rel: &str) -> (r: String)
    ensures
        r@ == join_spec(base@, rel@),
{
    let n = base.unicode_len();
    let mut r = String::from_str(base);
    if n == 0 {
        return String::from_str(rel);
    }
    if base.get_char(n - 1) != '/' {
        r.append("/");
        proof {
            reveal_strlit("/");
            assert("/"@ =~= seq!['/']);
        }
    }
    r.append(rel);
    r
}

/// `chain` lists `start` and then each parent in turn, up to a root.
pub open spec fn is_ancestor_chain(start: Seq<char>, chain: Seq<String>) -> bool {
    &&& chain.len() > 0
    &&& chain[0]@ == start
    &&& forall|i: int|
        0 <= i < chain.len() - 1 ==> parent_of(#[trigger] chain[i]@) == Some(chain[i + 1]@)
    &&& parent_of(chain.last()@) is None
}

/// The directory `start` followed by each of its ancestors, nearest first.
pub fn ancestor_chain(start: &str) -> (r: Vec<String>)
    ensures
        is_ancestor_chain(start@, r@),
{
    let mut chain: Vec<String> = Vec::new();
    let mut cur = String::from_str(start);
    loop
        invariant
            chain@.len() > 0 ==> chain@[0]@ == start@,
            chain@.len() > 0 ==> parent_of(chain@.last()@) == Some(cur@),
            chain@.len() == 0 ==> cur@ == start@,
            forall|i: int|
                0 <= i < chain@.len() - 1 ==> parent_of(#[trigger] chain@[i]@) == Some(
                    chain@[i + 1]@,
                ),
        decreases cur@.len(),
    {
        let next = parent_dir(cur.as_str());
        let ghost prev = chain@;
        chain.push(cur);
        proof {
            assert forall|i: int| 0 <= i < chain@.len() - 1 implies parent_of(
                #[trigger] chain@[i]@,
            ) == Some(chain@[i + 1]@) by {
                if i < prev.len() - 1 {
                    assert(chain@[i] == prev[i]);
                    assert(chain@[i + 1] == prev[i + 1]);
                }
            }
        }
        match next {
            Some(p) => {
                cur = p;
            },
            None => {
                return chain;
            },
        }
    }
}

/// The position of the first directory of `chain` that has an entry.
pub open spec fn is_first_linked(m: Map<Seq<char>, crate::project_map::LinkedProject>, chain: Seq<String>, r: Option<usize>) -> bool {
    match r {
        Some(i) => i < chain.len() && m.contains_key(chain[i as int]@) && forall|j: int|
            0 <= j < i ==> !m.contains_key(#[trigger] chain[j]@),
        None => forall|j: int| 0 <= j < chain.len() ==> !m.contains_key(#[trigger] chain[j]@),
    }
}

/// The first directory of `chain`, in order, that `projects` links.
pub fn first_linked(projects: &ProjectMap, chain: &Vec<String>) -> (r: Option<usize>)
    requires
        projects.wf(),
    ensures
        is_first_linked(projects@, chain@, r),
{
    let mut i: usize = 0;
    while i < chain.len()
        invariant
            projects.wf(),
            i <= chain@.len(),
            forall|j: int| 0 <= j < i ==> !projects@.contains_key(#[trigger] chain@[j]@),
        decreases chain@.len() - i,
    {
        if projects.contains_key(chain[i].as_str()) {
            return Some(i);
        }
        i += 1;
    }
    None
}

} // verus!
