//! Choosing among the installed Windows packages of the client: only those
//! named `OpenAI.Codex`, newest version first.

use vstd::prelude::*;
use crate::text::{chars_eq_ignore_ascii_case, eq_ignore_ascii_case, str_chars};

verus! {

/// A package version: major, minor, build and revision numbers.
pub type Version = (u16, u16, u16, u16);

/// Whether version `a` is older than `b`, comparing the numbers in order.
pub open spec fn version_lt(a: Version, b: Version) -> bool {
    ||| a.0 < b.0
    ||| a.0 == b.0 && a.1 < b.1
    ||| a.0 == b.0 && a.1 == b.1 && a.2 < b.2
    ||| a.0 == b.0 && a.1 == b.1 && a.2 == b.2 && a.3 < b.3
}

fn version_less(a: Version, b: Version) -> (res: bool)
    ensures
        res == version_lt(a, b),
{
    a.0 < b.0 || (a.0 == b.0 && (a.1 < b.1 || (a.1 == b.1 && (a.2 < b.2 || (a.2 == b.2 && a.3 < b.3)))))
}

/// Whether a package name is the client's, in any ASCII letter case.
pub open spec fn is_client_package(name: Seq<char>) -> bool {
    eq_ignore_ascii_case(name, "OpenAI.Codex"@)
}

/// Whether `order` lists exactly the client's packages among `names`
/// (positions into `names`, each once), newest version first, packages of
/// equal version in the order they were listed.
pub open spec fn newest_first(names: Seq<Seq<char>>, versions: Seq<Version>, order: Seq<usize>) -> bool {
    &&& forall|k: int| 0 <= k < order.len() ==> (#[trigger] order[k]) < names.len() && is_client_package(names[order[k] as int])
    &&& forall|i: int| 0 <= i < names.len() && is_client_package(#[trigger] names[i]) ==> order.contains(i as usize)
    &&& forall|k: int, l: int| 0 <= k < l < order.len() ==> order[k] != order[l]
    &&& forall|k: int, l: int| 0 <= k < l < order.len() ==> !version_lt(versions[order[k] as int], versions[order[l] as int])
    &&& forall|k: int, l: int| 0 <= k < l < order.len() && versions[order[k] as int] == versions[order[l] as int] ==> order[k] < order[l]
}

/// The client's packages among `packages` (name and version each), as
/// positions into `packages`, newest first.
pub fn client_packages_newest_first(packages: &Vec<(String, Version)>) -> (res: Vec<usize>)
    ensures
        newest_first(packages@.map_values(|p: (String, Version)| p.0@), packages@.map_values(|p: (String, Version)| p.1), res@),
{
    let ghost names = packages@.map_values(|p: (String, Version)| p.0@);
    let ghost versions = packages@.map_values(|p: (String, Version)| p.1);
    let mut order: Vec<usize> = Vec::new();
    let mut i: usize = 0;
    while i < packages.len()
        invariant
            i <= packages.len(),
            names == packages@.map_values(|p: (String, Version)| p.0@),
            versions == packages@.map_values(|p: (String, Version)| p.1),
            forall|k: int| 0 <= k < order@.len() ==> (#[trigger] order@[k]) < i && is_client_package(names[order@[k] as int]),
            forall|j: int| 0 <= j < i && is_client_package(#[trigger] names[j]) ==> order@.contains(j as usize),
            forall|k: int, l: int| 0 <= k < l < order@.len() ==> order@[k] != order@[l],
            forall|k: int, l: int| 0 <= k < l < order@.len() ==> !version_lt(versions[order@[k] as int], versions[order@[l] as int]),
            forall|k: int, l: int| 0 <= k < l < order@.len() && versions[order@[k] as int] == versions[order@[l] as int] ==> order@[k] < order@[l],
        decreases packages.len() - i,
    {
        let name_chars = str_chars(packages[i].0.as_str());
        assert(name_chars@.subrange(0, name_chars@.len() as int) =~= name_chars@);
        if chars_eq_ignore_ascii_case(&name_chars, 0, name_chars.len(), "OpenAI.Codex") {
            let v = packages[i].1;
            assert(v == versions[i as int]);
            let mut p: usize = 0;
            while p < order.len() && !version_less(packages[order[p]].1, v)
                invariant
                    p <= order.len(),
                    i < packages.len(),
                    v == versions[i as int],
                    versions == packages@.map_values(|p: (String, Version)| p.1),
                    forall|k: int| 0 <= k < order@.len() ==> (#[trigger] order@[k]) < i,
                    forall|k: int| 0 <= k < p ==> !version_lt(#[trigger] versions[order@[k] as int], v),
                decreases order.len() - p,
            {
                p = p + 1;
            }
            let ghost old_order = order@;
            assert(p < old_order.len() ==> version_lt(versions[old_order[p as int] as int], v));
            assert forall|k: int| p <= k < old_order.len() implies version_lt(#[trigger] versions[old_order[k] as int], v) by {
                if k > p {
                    assert(!version_lt(versions[old_order[p as int] as int], versions[old_order[k] as int]));
                }
            }
            order.insert(p, i);
            assert(order@ =~= old_order.take(p as int).push(i).add(old_order.skip(p as int)));
            assert forall|j: int| 0 <= j <= i && is_client_package(#[trigger] names[j]) implies order@.contains(j as usize) by {
                if j < i {
                    let k = choose|k: int| 0 <= k < old_order.len() && old_order[k] == j as usize;
                    if k < p {
                        assert(order@[k] == j as usize);
                    } else {
                        assert(order@[k + 1] == j as usize);
                    }
                } else {
                    assert(order@[p as int] == i);
                }
            }
        } else {
            assert(!is_client_package(names[i as int]));
        }
        i = i + 1;
    }
    order
}

} // verus!
