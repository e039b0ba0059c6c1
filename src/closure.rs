use crate::error::ShoalError;
use crate::name_map::NameMap;
use crate::text::names_of;
use crate::types::Service;
use vstd::prelude::*;

verus! {

proof fn lemma_names_push(s: Seq<String>, x: String)
    ensures
        forall|n: Seq<char>|
            #[trigger] names_of(s.push(x)).contains(n) <==> names_of(s).contains(n) || n == x@,
{
    assert(names_of(s.push(x)) =~= names_of(s).push(x@));
    assert forall|n: Seq<char>| names_of(s).contains(n) implies #[trigger] names_of(
        s.push(x),
    ).contains(n) by {
        let j = choose|j: int| 0 <= j < names_of(s).len() && names_of(s)[j] == n;
        assert(names_of(s.push(x))[j] == n);
    }
    assert(names_of(s.push(x))[s.len() as int] == x@);
}

/// The dependencies that the registered service `n` declares.
pub open spec fn deps_of(reg: Map<Seq<char>, Service>, n: Seq<char>) -> Seq<Seq<char>> {
    match reg[n].dependencies {
        Some(d) => names_of(d@),
        None => Seq::empty(),
    }
}

/// `p` starts at a root and each later name is a declared dependency of the
/// registered service before it.
pub open spec fn is_dep_path(
    reg: Map<Seq<char>, Service>,
    roots: Seq<Seq<char>>,
    p: Seq<Seq<char>>,
) -> bool {
    &&& p.len() > 0
    &&& roots.contains(p[0])
    &&& forall|i: int|
        0 <= i < p.len() - 1 ==> reg.contains_key(#[trigger] p[i]) && deps_of(reg, p[i]).contains(
            p[i + 1],
        )
}

/// `n` is a root or is required, directly or transitively, by a root.
pub open spec fn reachable(reg: Map<Seq<char>, Service>, roots: Seq<Seq<char>>, n: Seq<char>) -> bool {
    exists|p: Seq<Seq<char>>| #[trigger] is_dep_path(reg, roots, p) && p.last() == n
}

/// Every name reachable from the roots is registered.
pub open spec fn closure_registered(reg: Map<Seq<char>, Service>, roots: Seq<Seq<char>>) -> bool {
    forall|n: Seq<char>| #[trigger] reachable(reg, roots, n) ==> reg.contains_key(n)
}

pub proof fn lemma_root_reachable(reg: Map<Seq<char>, Service>, roots: Seq<Seq<char>>, n: Seq<char>)
    requires
        roots.contains(n),
    ensures
        reachable(reg, roots, n),
{
    let p = seq![n];
    assert(is_dep_path(reg, roots, p));
}

pub proof fn lemma_dep_reachable(
    reg: Map<Seq<char>, Service>,
    roots: Seq<Seq<char>>,
    n: Seq<char>,
    d: Seq<char>,
)
    requires
        reachable(reg, roots, n),
        reg.contains_key(n),
        deps_of(reg, n).contains(d),
    ensures
        reachable(reg, roots, d),
{
    let p = choose|p: Seq<Seq<char>>| #[trigger] is_dep_path(reg, roots, p) && p.last() == n;
    let q = p.push(d);
    assert forall|i: int| 0 <= i < q.len() - 1 implies reg.contains_key(#[trigger] q[i])
        && deps_of(reg, q[i]).contains(q[i + 1]) by {
        if i < p.len() - 1 {
            assert(q[i] == p[i] && q[i + 1] == p[i + 1]);
        } else {
            assert(q[i] == n && q[i + 1] == d);
        }
    }
    assert(q[0] == p[0]);
    assert(is_dep_path(reg, roots, q));
}

/// A set of names that holds the roots and is closed under dependencies
/// holds every reachable name.
proof fn lemma_closed_holds_reachable(
    reg: Map<Seq<char>, Service>,
    roots: Seq<Seq<char>>,
    s: Seq<Seq<char>>,
    p: Seq<Seq<char>>,
)
    requires
        forall|r: Seq<char>| roots.contains(r) ==> s.contains(r),
        forall|v: Seq<char>| #[trigger]
            s.contains(v) ==> reg.contains_key(v) && forall|d: Seq<char>|
                deps_of(reg, v).contains(d) ==> s.contains(d),
        is_dep_path(reg, roots, p),
    ensures
        s.contains(p.last()),
    decreases p.len(),
{
    if p.len() > 1 {
        let q = p.drop_last();
        assert forall|i: int| 0 <= i < q.len() - 1 implies reg.contains_key(#[trigger] q[i])
            && deps_of(reg, q[i]).contains(q[i + 1]) by {
            assert(q[i] == p[i] && q[i + 1] == p[i + 1]);
        }
        assert(q[0] == p[0]);
        lemma_closed_holds_reachable(reg, roots, s, q);
        assert(q.last() == p[p.len() - 2]);
        assert(reg.contains_key(p[p.len() - 2]) && deps_of(reg, p[p.len() - 2]).contains(p.last()));
    }
}

fn contains_name(v: &Vec<String>, n: &String) -> (r: bool)
    ensures
        r == names_of(v@).contains(n@),
{
    let mut i: usize = 0;
    while i < v.len()
        invariant
            i <= v@.len(),
            forall|j: int| 0 <= j < i ==> #[trigger] v@[j]@ != n@,
        decreases v@.len() - i,
    {
        if v[i] == *n {
            assert(names_of(v@)[i as int] == n@);
            return true;
        }
        i = i + 1;
    }
    assert forall|j: int| 0 <= j < names_of(v@).len() implies names_of(v@)[j] != n@ by {
        assert(names_of(v@)[j] == v@[j]@);
    }
    false
}

/// Expands `roots` to every service that they require, directly or
/// transitively, roots included, each once. Cycles are followed no further
/// than their first repeated name. A required name that the registry lacks
/// stops the expansion, and the error names it.
pub fn resolve_dependencies(roots: &Vec<String>, services: &NameMap<Service>) -> (r: Result<
    Vec<String>,
    ShoalError,
>)
    ensures
        r is Ok <==> closure_registered(services@, names_of(roots@)),
        match r {
            Ok(c) => {
                &&& names_of(c@).no_duplicates()
                &&& forall|n: Seq<char>|
                    names_of(c@).contains(n) <==> #[trigger] reachable(
                        services@,
                        names_of(roots@),
                        n,
                    )
            },
            Err(e) => match e {
                ShoalError::MissingDependency { service } => {
                    &&& reachable(services@, names_of(roots@), service@)
                    &&& !services@.contains_key(service@)
                },
                _ => false,
            },
        },
{
    let ghost reg = services@;
    let ghost rs = names_of(roots@);
    let total = services.len();
    let mut worklist: Vec<String> = Vec::new();
    let mut k: usize = roots.len();
    while k > 0
        invariant
            k <= roots@.len(),
            rs == names_of(roots@),
            worklist@.len() == roots@.len() - k,
            forall|j: int| 0 <= j < worklist@.len() ==> #[trigger] reachable(reg, rs, worklist@[j]@),
            forall|j: int| k <= j < roots@.len() ==> names_of(worklist@).contains(#[trigger] rs[j]),
        decreases k,
    {
        k = k - 1;
        proof {
            assert(rs[k as int] == roots@[k as int]@);
            lemma_root_reachable(reg, rs, roots@[k as int]@);
        }
        let ghost before = worklist@;
        worklist.push(roots[k].clone());
        proof {
            lemma_names_push(before, roots@[k as int]);
            assert forall|j: int| k <= j < roots@.len() implies names_of(worklist@).contains(
                #[trigger] rs[j],
            ) by {
                if j > k {
                    assert(names_of(before).contains(rs[j]));
                }
            }
            assert forall|j: int| 0 <= j < worklist@.len() implies #[trigger] reachable(
                reg,
                rs,
                worklist@[j]@,
            ) by {
                if j < before.len() {
                    assert(worklist@[j] == before[j]);
                }
            }
        }
    }
    proof {
        assert forall|n: Seq<char>| rs.contains(n) implies names_of(worklist@).contains(n) by {
            let j = choose|j: int| 0 <= j < rs.len() && rs[j] == n;
        }
    }
    let mut visited: Vec<String> = Vec::new();
    while worklist.len() > 0
        invariant
            rs == names_of(roots@),
            reg == services@,
            total == reg.len(),
            reg.dom().finite(),
            visited@.len() <= total,
            names_of(visited@).no_duplicates(),
            forall|j: int|
                0 <= j < visited@.len() ==> #[trigger] reachable(reg, rs, visited@[j]@)
                    && reg.contains_key(visited@[j]@),
            forall|j: int| 0 <= j < worklist@.len() ==> #[trigger] reachable(reg, rs, worklist@[j]@),
            forall|n: Seq<char>|
                rs.contains(n) ==> names_of(visited@).contains(n) || names_of(worklist@).contains(n),
            forall|v: Seq<char>, d: Seq<char>|
                #![trigger names_of(visited@).contains(v), deps_of(reg, v).contains(d)]
                names_of(visited@).contains(v) && deps_of(reg, v).contains(d) ==> names_of(
                    visited@,
                ).contains(d) || names_of(worklist@).contains(d),
        decreases total - visited@.len(), worklist@.len(),
    {
        let ghost before_work = worklist@;
        let ghost old_visited = visited@;
        let name = match worklist.pop() {
            Some(n) => n,
            None => {
                return Ok(visited);
            },
        };
        proof {
            assert(before_work =~= worklist@.push(name));
            lemma_names_push(worklist@, name);
            assert forall|j: int| 0 <= j < worklist@.len() implies #[trigger] reachable(
                reg,
                rs,
                worklist@[j]@,
            ) by {
                assert(worklist@[j] == before_work[j]);
            }
            assert(reachable(reg, rs, before_work[before_work.len() - 1]@));
        }
        if contains_name(&visited, &name) {
            continue;
        }
        match services.get(name.as_str()) {
            None => {
                return Err(ShoalError::MissingDependency { service: name });
            },
            Some(service) => {
                proof {
                    // a new registered name fits under the registry's size
                    let seen = names_of(old_visited).push(name@);
                    assert(names_of(old_visited.push(name)) =~= seen);
                    assert(seen.no_duplicates()) by {
                        assert forall|a: int, b: int|
                            0 <= a < seen.len() && 0 <= b < seen.len() && a != b implies seen[a]
                            != seen[b] by {
                            if a < old_visited.len() && b < old_visited.len() {
                                assert(seen[a] == names_of(old_visited)[a]);
                                assert(seen[b] == names_of(old_visited)[b]);
                            } else if a < old_visited.len() {
                                assert(names_of(old_visited)[a] == seen[a]);
                            } else {
                                assert(names_of(old_visited)[b] == seen[b]);
                            }
                        }
                    }
                    assert(seen.to_set().subset_of(reg.dom())) by {
                        assert forall|n: Seq<char>| seen.to_set().contains(n) implies reg.dom().contains(
                            n,
                        ) by {
                            assert(seen.contains(n));
                            let j = choose|j: int| 0 <= j < seen.len() && seen[j] == n;
                            if j < old_visited.len() {
                                assert(seen[j] == old_visited[j]@);
                                assert(reachable(reg, rs, old_visited[j]@));
                            }
                        }
                    }
                    seen.unique_seq_to_set();
                    vstd::set_lib::lemma_len_subset(seen.to_set(), reg.dom());
                }
                visited.push(name);
                proof {
                    lemma_names_push(old_visited, name);
                    assert forall|j: int| 0 <= j < visited@.len() implies #[trigger] reachable(
                        reg,
                        rs,
                        visited@[j]@,
                    ) && reg.contains_key(visited@[j]@) by {
                        if j < old_visited.len() {
                            assert(visited@[j] == old_visited[j]);
                        }
                    }
                }
                let ghost mid_work = worklist@;
                match &service.dependencies {
                    None => {
                        assert(deps_of(reg, name@) =~= Seq::<Seq<char>>::empty());
                    },
                    Some(deps) => {
                        assert(deps_of(reg, name@) == names_of(deps@));
                        let mut t: usize = 0;
                        while t < deps.len()
                            invariant
                                t <= deps@.len(),
                                rs == names_of(roots@),
                                reg == services@,
                                reg.contains_key(name@),
                                reachable(reg, rs, name@),
                                deps_of(reg, name@) == names_of(deps@),
                                forall|j: int|
                                    0 <= j < worklist@.len() ==> #[trigger] reachable(
                                        reg,
                                        rs,
                                        worklist@[j]@,
                                    ),
                                forall|j: int|
                                    0 <= j < t ==> names_of(worklist@).contains(
                                        #[trigger] names_of(deps@)[j],
                                    ),
                                forall|n: Seq<char>|
                                    names_of(mid_work).contains(n) ==> #[trigger] names_of(
                                        worklist@,
                                    ).contains(n),
                            decreases deps@.len() - t,
                        {
                            proof {
                                assert(names_of(deps@)[t as int] == deps@[t as int]@);
                                lemma_dep_reachable(reg, rs, name@, deps@[t as int]@);
                            }
                            let ghost before_push = worklist@;
                            worklist.push(deps[t].clone());
                            proof {
                                lemma_names_push(before_push, deps@[t as int]);
                                assert forall|j: int| 0 <= j < worklist@.len() implies #[trigger] reachable(
                                    reg,
                                    rs,
                                    worklist@[j]@,
                                ) by {
                                    if j < before_push.len() {
                                        assert(worklist@[j] == before_push[j]);
                                    }
                                }
                                assert forall|j: int| 0 <= j < t + 1 implies names_of(
                                    worklist@,
                                ).contains(#[trigger] names_of(deps@)[j]) by {
                                    if j < t {
                                        assert(names_of(before_push).contains(names_of(deps@)[j]));
                                    }
                                }
                            }
                            t = t + 1;
                        }
                        proof {
                            assert forall|d: Seq<char>| #[trigger]
                                names_of(deps@).contains(d) implies names_of(worklist@).contains(d) by {
                                let j = choose|j: int| 0 <= j < names_of(deps@).len() && names_of(deps@)[j] == d;
                            }
                        }
                    },
                }
            },
        }
        proof {
            assert forall|n: Seq<char>| rs.contains(n) implies names_of(visited@).contains(n)
                || names_of(worklist@).contains(n) by {
                if names_of(old_visited).contains(n) {
                } else {
                    assert(names_of(before_work).contains(n));
                }
            }
            assert forall|v: Seq<char>, d: Seq<char>|
                #![trigger names_of(visited@).contains(v), deps_of(reg, v).contains(d)]
                names_of(visited@).contains(v) && deps_of(reg, v).contains(d) implies names_of(
                visited@,
            ).contains(d) || names_of(worklist@).contains(d) by {
                if names_of(old_visited).contains(v) {
                    assert(names_of(old_visited).contains(d) || names_of(before_work).contains(d));
                }
            }
        }
    }
    proof {
        let s = names_of(visited@);
        assert forall|v: Seq<char>| #[trigger] s.contains(v) implies reg.contains_key(v) && forall|
            d: Seq<char>,
        | deps_of(reg, v).contains(d) ==> s.contains(d) by {
            let j = choose|j: int| 0 <= j < s.len() && s[j] == v;
            assert(s[j] == visited@[j]@);
            assert(reachable(reg, rs, visited@[j]@));
            assert forall|d: Seq<char>| deps_of(reg, v).contains(d) implies s.contains(d) by {
                assert(names_of(visited@).contains(v) && deps_of(reg, v).contains(d));
                if names_of(worklist@).contains(d) {
                    let i = choose|i: int| 0 <= i < names_of(worklist@).len() && names_of(worklist@)[i] == d;
                }
            }
        }
        assert forall|n: Seq<char>| s.contains(n) <==> #[trigger] reachable(reg, rs, n) by {
            if reachable(reg, rs, n) {
                let p = choose|p: Seq<Seq<char>>| #[trigger] is_dep_path(reg, rs, p) && p.last() == n;
                assert forall|r: Seq<char>| rs.contains(r) implies s.contains(r) by {
                    if names_of(worklist@).contains(r) {
                        let i = choose|i: int| 0 <= i < names_of(worklist@).len() && names_of(worklist@)[i] == r;
                    }
                }
                lemma_closed_holds_reachable(reg, rs, s, p);
            }
            if s.contains(n) {
                let j = choose|j: int| 0 <= j < s.len() && s[j] == n;
                assert(s[j] == visited@[j]@);
            }
        }
        assert forall|n: Seq<char>| #[trigger] reachable(reg, rs, n) implies reg.contains_key(n) by {
            assert(s.contains(n));
            let j = choose|j: int| 0 <= j < s.len() && s[j] == n;
            assert(s[j] == visited@[j]@);
            assert(reachable(reg, rs, visited@[j]@));
        }
    }
    Ok(visited)
}

} // verus!
