//! Bookkeeping of one time step of the entanglement scheduler: whether every
//! hop of a route has an established link, and which fidelity each hop
//! contributes.
use vstd::prelude::*;

use crate::binary64::Binary64;

verus! {

/// Whether an established link joins `a` and `b`, in either direction.
pub open spec fn same_hop(e: (String, String, Binary64), a: Seq<char>, b: Seq<char>) -> bool {
    (e.0@ == a && e.1@ == b) || (e.0@ == b && e.1@ == a)
}

/// Whether some established link joins `a` and `b`.
pub open spec fn hop_established(est: Seq<(String, String, Binary64)>, a: Seq<char>, b: Seq<char>) -> bool {
    exists|k: int| 0 <= k < est.len() && #[trigger] same_hop(est[k], a, b)
}

/// Whether every hop of `path` has an established link.
pub open spec fn route_established(est: Seq<(String, String, Binary64)>, path: Seq<Seq<char>>) -> bool {
    forall|i: int| 0 <= i < path.len() - 1 ==> #[trigger] hop_established(est, path[i], path[i + 1])
}

/// The fidelity of the last established link that joins `a` and `b`.
pub open spec fn last_hop_fidelity(est: Seq<(String, String, Binary64)>, a: Seq<char>, b: Seq<char>) -> Option<
    Binary64,
>
    decreases est.len(),
{
    if est.len() == 0 {
        None
    } else if same_hop(est.last(), a, b) {
        Some(est.last().2)
    } else {
        last_hop_fidelity(est.drop_last(), a, b)
    }
}

/// The fidelity of the last established link that joins `a` and `b`.
fn find_hop_fidelity(est: &Vec<(String, String, Binary64)>, a: &String, b: &String) -> (r: Option<
    Binary64,
>)
    ensures
        r == last_hop_fidelity(est@, a@, b@),
        r is Some <==> hop_established(est@, a@, b@),
{
    let mut i: usize = est.len();
    assert(est@.subrange(0, i as int) =~= est@);
    while i > 0
        invariant
            i <= est@.len(),
            last_hop_fidelity(est@, a@, b@) == last_hop_fidelity(est@.subrange(0, i as int), a@, b@),
            forall|k: int| i <= k < est@.len() ==> !#[trigger] same_hop(est@[k], a@, b@),
        decreases i,
    {
        assert(est@.subrange(0, i as int).drop_last() =~= est@.subrange(0, i - 1));
        let e = &est[i - 1];
        if (e.0 == *a && e.1 == *b) || (e.0 == *b && e.1 == *a) {
            assert(same_hop(est@[i - 1], a@, b@));
            return Some(e.2);
        }
        i = i - 1;
    }
    None
}

/// Whether every hop of `path` has an established link, in either direction.
pub fn all_hops_established(path: &Vec<String>, est: &Vec<(String, String, Binary64)>) -> (r: bool)
    ensures
        r == route_established(est@, path.deep_view()),
{
    let ghost p = path.deep_view();
    if path.len() == 0 {
        return true;
    }
    let mut i: usize = 0;
    while i + 1 < path.len()
        invariant
            p == path.deep_view(),
            i + 1 <= path@.len(),
            forall|j: int| 0 <= j < i ==> #[trigger] hop_established(est@, p[j], p[j + 1]),
        decreases path.len() - i,
    {
        if find_hop_fidelity(est, &path[i], &path[i + 1]).is_none() {
            assert(!hop_established(est@, p[i as int], p[i + 1]));
            return false;
        }
        i = i + 1;
    }
    true
}

/// For each hop of `path`, the fidelity of the last established link that
/// joins its nodes, if any.
pub fn hop_fidelities(path: &Vec<String>, est: &Vec<(String, String, Binary64)>) -> (r: Vec<
    Option<Binary64>,
>)
    ensures
        r@.len() == if path@.len() == 0 {
            0
        } else {
            path@.len() - 1
        },
        forall|i: int|
            0 <= i < r@.len() ==> #[trigger] r@[i] == last_hop_fidelity(
                est@,
                path@[i]@,
                path@[i + 1]@,
            ),
{
    let mut r: Vec<Option<Binary64>> = Vec::new();
    let mut i: usize = 1;
    while i < path.len()
        invariant
            1 <= i <= path@.len() || (i == 1 && path@.len() == 0),
            r@.len() == i - 1,
            forall|j: int|
                0 <= j < r@.len() ==> #[trigger] r@[j] == last_hop_fidelity(
                    est@,
                    path@[j]@,
                    path@[j + 1]@,
                ),
        decreases path.len() - i,
    {
        r.push(find_hop_fidelity(est, &path[i - 1], &path[i]));
        i = i + 1;
    }
    r
}

/// The fidelity found for a hop is that of the last established link joining
/// its two nodes, in either direction; there is none exactly when no
/// established link joins them.
pub proof fn law_hop_fidelity_is_the_last_joining_link(
    est: Seq<(String, String, Binary64)>,
    a: Seq<char>,
    b: Seq<char>,
)
    ensures
        last_hop_fidelity(est, a, b) is None <==> forall|k: int|
            0 <= k < est.len() ==> !((#[trigger] est[k]).0@ == a && est[k].1@ == b || est[k].0@ == b
                && est[k].1@ == a),
        last_hop_fidelity(est, a, b) matches Some(f) ==> exists|k: int|
            0 <= k < est.len() && (#[trigger] est[k]).2 == f && (est[k].0@ == a && est[k].1@ == b
                || est[k].0@ == b && est[k].1@ == a) && forall|j: int|
                k < j < est.len() ==> !((#[trigger] est[j]).0@ == a && est[j].1@ == b || est[j].0@ == b
                    && est[j].1@ == a),
    decreases est.len(),
{
    if est.len() > 0 {
        let init = est.drop_last();
        law_hop_fidelity_is_the_last_joining_link(init, a, b);
        let n = est.len() - 1;
        assert(est.last() == est[n]);
        assert forall|k: int| 0 <= k < n implies #[trigger] init[k] == est[k] by {}
        if !same_hop(est.last(), a, b) {
            if let Some(f) = last_hop_fidelity(init, a, b) {
                let k = choose|k: int|
                    0 <= k < init.len() && (#[trigger] init[k]).2 == f && (init[k].0@ == a && init[k].1@ == b
                        || init[k].0@ == b && init[k].1@ == a) && forall|j: int|
                        k < j < init.len() ==> !((#[trigger] init[j]).0@ == a && init[j].1@ == b || init[j].0@
                            == b && init[j].1@ == a);
                assert(est[k] == init[k]);
                assert forall|j: int| k < j < est.len() implies !((#[trigger] est[j]).0@ == a && est[j].1@ == b
                    || est[j].0@ == b && est[j].1@ == a) by {
                    if j < n {
                        assert(est[j] == init[j]);
                    }
                }
            }
            assert forall|k: int| 0 <= k < est.len() && last_hop_fidelity(init, a, b) is None implies !((
            #[trigger] est[k]).0@ == a && est[k].1@ == b || est[k].0@ == b && est[k].1@ == a) by {
                if k < n {
                    assert(est[k] == init[k]);
                }
            }
        }
    }
}

} // verus!
