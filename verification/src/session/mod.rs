//! Opening a session: which profiles to connect through, and in what order.
//!
//! A profile may name another profile as its transport; its connection is
//! then carried by a session opened from that profile, which may itself have
//! a transport, and so on. Every profile of such a chain is looked up before
//! the first connection is made, and the connections are then made from the
//! end of the chain back to the profile asked for.

use vstd::prelude::*;

use crate::profile::ProfileSpec;
use crate::ssh;
use crate::ssh::profile::SshProfileSpec;
use crate::storage::Storage;

pub mod transport;

pub use transport::Transport;

verus! {

/// Why a chain of transports could not be planned.
#[derive(Debug, PartialEq, Eq, Structural, Clone, Copy)]
pub enum SessionError {
    /// A profile of the chain is not in the store.
    ProfileNotFound,
}

/// How following the transport references from a profile stopped short.
enum ChainEnd {
    /// At an identifier that is not stored.
    Missing,
    /// Back at a profile already passed.
    Loop,
}

/// `a` is stored and names `b` as its transport.
pub open spec fn links_to(m: Map<Seq<char>, ProfileSpec>, a: Seq<char>, b: Seq<char>) -> bool {
    m.contains_key(a) && m[a].transport == Some(b)
}

/// `w` starts at `id` and follows transport references, without repeating
/// an identifier.
pub open spec fn is_walk(m: Map<Seq<char>, ProfileSpec>, id: Seq<char>, w: Seq<Seq<char>>) -> bool {
    &&& w.len() >= 1
    &&& w[0] == id
    &&& w.no_duplicates()
    &&& forall|i: int| 0 <= i < w.len() - 1 ==> links_to(m, #[trigger] w[i], w[i + 1])
}

/// The walk `w` ends at a stored profile that has no transport.
pub open spec fn walk_completes(m: Map<Seq<char>, ProfileSpec>, id: Seq<char>, w: Seq<Seq<char>>) -> bool {
    &&& is_walk(m, id, w)
    &&& m.contains_key(w.last())
    &&& m[w.last()].transport is None
}

/// The walk `w` ends at an identifier that is not stored.
pub open spec fn walk_breaks(m: Map<Seq<char>, ProfileSpec>, id: Seq<char>, w: Seq<Seq<char>>) -> bool {
    &&& is_walk(m, id, w)
    &&& !m.contains_key(w.last())
}

/// The walk `w` ends at a stored profile whose transport is already on `w`.
pub open spec fn walk_loops(m: Map<Seq<char>, ProfileSpec>, id: Seq<char>, w: Seq<Seq<char>>) -> bool {
    &&& is_walk(m, id, w)
    &&& m.contains_key(w.last())
    &&& m[w.last()].transport matches Some(t) && w.contains(t)
}

/// The SSH profiles to connect to for the walk `w`: the end of the walk
/// first, its start last.
pub open spec fn connection_order(m: Map<Seq<char>, ProfileSpec>, w: Seq<Seq<char>>) -> Seq<SshProfileSpec> {
    Seq::new(w.len(), |i: int| m[w[w.len() - 1 - i]].ssh())
}

/// Following the transport references from `id` never comes back to a
/// profile already passed.
pub open spec fn acyclic_from(m: Map<Seq<char>, ProfileSpec>, id: Seq<char>) -> bool {
    forall|w: Seq<Seq<char>>| !#[trigger] walk_loops(m, id, w)
}

/// What planning a session for `id` against the store `m` may give: the
/// connection order of the completed walk from `id`, or the error that says
/// the walk reached an identifier that is not stored.
pub open spec fn is_plan_for(
    m: Map<Seq<char>, ProfileSpec>,
    id: Seq<char>,
    r: Result<Seq<SshProfileSpec>, SessionError>,
) -> bool {
    match r {
        Ok(p) => exists|w: Seq<Seq<char>>| walk_completes(m, id, w) && p == connection_order(m, w),
        Err(SessionError::ProfileNotFound) => exists|w: Seq<Seq<char>>| walk_breaks(m, id, w),
    }
}

spec fn follows(
    m: Map<Seq<char>, ProfileSpec>,
    id: Seq<char>,
    r: Result<Vec<&ssh::Profile>, ChainEnd>,
) -> bool {
    match r {
        Ok(p) => exists|w: Seq<Seq<char>>|
            walk_completes(m, id, w) && ssh_views(p@) == connection_order(m, w),
        Err(ChainEnd::Missing) => exists|w: Seq<Seq<char>>| walk_breaks(m, id, w),
        Err(ChainEnd::Loop) => exists|w: Seq<Seq<char>>| walk_loops(m, id, w),
    }
}

/// The abstract value of a planning result.
pub open spec fn plan_view(r: Result<Vec<&ssh::Profile>, SessionError>) -> Result<
    Seq<SshProfileSpec>,
    SessionError,
> {
    match r {
        Ok(p) => Ok(ssh_views(p@)),
        Err(e) => Err(e),
    }
}

pub open spec fn ssh_views(v: Seq<&ssh::Profile>) -> Seq<SshProfileSpec> {
    v.map_values(|p: &ssh::Profile| p@)
}

pub open spec fn string_views(v: Seq<String>) -> Seq<Seq<char>> {
    v.map_values(|s: String| s@)
}

proof fn lemma_distinct_keys_bounded(w: Seq<Seq<char>>, m: Map<Seq<char>, ProfileSpec>)
    requires
        w.no_duplicates(),
        m.dom().finite(),
        forall|i: int| 0 <= i < w.len() ==> m.contains_key(#[trigger] w[i]),
    ensures
        w.len() <= m.dom().len(),
{
    w.unique_seq_to_set();
    assert(w.to_set().subset_of(m.dom()));
    vstd::set_lib::lemma_len_subset(w.to_set(), m.dom());
}

fn contains_id(v: &Vec<String>, s: &String) -> (r: bool)
    ensures
        r == string_views(v@).contains(s@),
{
    let mut i: usize = 0;
    while i < v.len()
        invariant
            i <= v@.len(),
            forall|j: int| 0 <= j < i ==> (#[trigger] v@[j])@ != s@,
        decreases v@.len() - i,
    {
        if v[i] == *s {
            assert(string_views(v@)[i as int] == s@);
            return true;
        }
        i = i + 1;
    }
    proof {
        if string_views(v@).contains(s@) {
            let j = choose|j: int| 0 <= j < v@.len() && string_views(v@)[j] == s@;
            assert(v@[j]@ == s@);
        }
    }
    false
}

fn ssh_in_connection_order<'a>(
    chain: &Vec<&'a crate::profile::Profile>,
    Ghost(m): Ghost<Map<Seq<char>, ProfileSpec>>,
    Ghost(w): Ghost<Seq<Seq<char>>>,
) -> (plan: Vec<&'a ssh::Profile>)
    requires
        chain@.len() == w.len(),
        forall|i: int| 0 <= i < chain@.len() ==> (#[trigger] chain@[i])@ == m[w[i]],
    ensures
        ssh_views(plan@) == connection_order(m, w),
{
    let mut plan: Vec<&'a ssh::Profile> = Vec::new();
    let mut k: usize = chain.len();
    while k > 0
        invariant
            k <= chain@.len(),
            chain@.len() == w.len(),
            plan@.len() == chain@.len() - k,
            forall|i: int| 0 <= i < chain@.len() ==> (#[trigger] chain@[i])@ == m[w[i]],
            forall|i: int|
                0 <= i < plan@.len() ==> (#[trigger] plan@[i])@ == connection_order(m, w)[i],
        decreases k,
    {
        k = k - 1;
        let s = chain[k].ssh();
        plan.push(s);
    }
    assert(ssh_views(plan@) =~= connection_order(m, w));
    plan
}

proof fn lemma_walks_agree(
    m: Map<Seq<char>, ProfileSpec>,
    id: Seq<char>,
    w1: Seq<Seq<char>>,
    w2: Seq<Seq<char>>,
)
    requires
        is_walk(m, id, w1),
        is_walk(m, id, w2),
    ensures
        forall|i: int| 0 <= i < w1.len() && i < w2.len() ==> #[trigger] w1[i] == w2[i],
{
    assert forall|i: int| 0 <= i < w1.len() && i < w2.len() implies #[trigger] w1[i] == w2[i] by {
        lemma_walks_agree_upto(m, id, w1, w2, i);
    }
}

proof fn lemma_walks_agree_upto(
    m: Map<Seq<char>, ProfileSpec>,
    id: Seq<char>,
    w1: Seq<Seq<char>>,
    w2: Seq<Seq<char>>,
    i: int,
)
    requires
        is_walk(m, id, w1),
        is_walk(m, id, w2),
        0 <= i < w1.len(),
        i < w2.len(),
    ensures
        w1[i] == w2[i],
    decreases i,
{
    if i > 0 {
        lemma_walks_agree_upto(m, id, w1, w2, i - 1);
        assert(links_to(m, w1[i - 1], w1[i]));
        assert(links_to(m, w2[i - 1], w2[i]));
    }
}

proof fn lemma_walk_stored(m: Map<Seq<char>, ProfileSpec>, id: Seq<char>, w: Seq<Seq<char>>, i: int)
    requires
        is_walk(m, id, w),
        0 <= i < w.len() - 1,
    ensures
        m.contains_key(w[i]),
{
    assert(links_to(m, w[i], w[i + 1]));
}

/// The connections of a plan follow the transport references: the first is
/// to a stored profile without transport, each later one is to a profile
/// whose transport is the profile of the connection just before it, and the
/// last is to the profile asked for.
pub proof fn law_plan_follows_transports(
    m: Map<Seq<char>, ProfileSpec>,
    id: Seq<char>,
    p: Seq<SshProfileSpec>,
)
    requires
        is_plan_for(m, id, Ok(p)),
    ensures
        p.len() >= 1,
        m.contains_key(id),
        p[p.len() - 1] == m[id].ssh(),
        exists|k: Seq<char>|
            #[trigger] m.contains_key(k) && m[k].transport is None && m[k].ssh() == p[0],
        forall|i: int|
            #![trigger p[i]]
            0 < i < p.len() ==> exists|a: Seq<char>, b: Seq<char>|
                #[trigger] links_to(m, a, b) && m[a].ssh() == p[i] && m[b].ssh() == p[i - 1],
{
    let w = choose|w: Seq<Seq<char>>| walk_completes(m, id, w) && p == connection_order(m, w);
    let n = w.len() as int;
    if n > 1 {
        assert(links_to(m, w[0], w[1]));
    }
    assert(p[n - 1] == m[w[0]].ssh());
    assert(p[0] == m[w[n - 1]].ssh());
    assert(m.contains_key(w[n - 1]));
    assert forall|i: int| #![trigger p[i]] 0 < i < p.len() implies exists|a: Seq<char>, b: Seq<char>|
        #[trigger] links_to(m, a, b) && m[a].ssh() == p[i] && m[b].ssh() == p[i - 1] by {
        let j = n - 1 - i;
        assert(links_to(m, w[j], w[j + 1]));
        assert(p[i] == m[w[j]].ssh());
        assert(p[i - 1] == m[w[j + 1]].ssh());
    }
}

/// Planning is determined by the store: of the three ways a walk from `id`
/// can end (at a profile without transport, at a missing identifier, or back
/// on itself) at most one happens, and a completed walk is unique.
pub proof fn law_plan_outcome_is_determined(
    m: Map<Seq<char>, ProfileSpec>,
    id: Seq<char>,
    w1: Seq<Seq<char>>,
    w2: Seq<Seq<char>>,
)
    ensures
        walk_completes(m, id, w1) && walk_completes(m, id, w2) ==> w1 == w2,
        !(walk_completes(m, id, w1) && walk_breaks(m, id, w2)),
        !(walk_completes(m, id, w1) && walk_loops(m, id, w2)),
        !(walk_breaks(m, id, w1) && walk_loops(m, id, w2)),
{
    if is_walk(m, id, w1) && is_walk(m, id, w2) {
        lemma_walks_agree(m, id, w1, w2);
        let n1 = w1.len();
        let n2 = w2.len();
        if walk_completes(m, id, w1) {
            if n1 < n2 {
                assert(links_to(m, w2[n1 - 1], w2[n1 as int]));
                assert(w1[n1 - 1] == w2[n1 - 1]);
            }
            if walk_completes(m, id, w2) {
                if n2 < n1 {
                    assert(links_to(m, w1[n2 - 1], w1[n2 as int]));
                    assert(w1[n2 - 1] == w2[n2 - 1]);
                }
                assert(w1 =~= w2);
            }
            if walk_breaks(m, id, w2) && n2 <= n1 {
                assert(w1[n2 - 1] == w2[n2 - 1]);
                if n2 < n1 {
                    lemma_walk_stored(m, id, w1, n2 - 1);
                }
            }
            if walk_loops(m, id, w2) && n2 <= n1 {
                assert(w1[n2 - 1] == w2[n2 - 1]);
                if n2 < n1 {
                    assert(links_to(m, w1[n2 - 1], w1[n2 as int]));
                    let t = w1[n2 as int];
                    let j = choose|j: int| 0 <= j < w2.len() && w2[j] == t;
                    assert(w1[j] == w2[j]);
                }
            }
        }
        if walk_breaks(m, id, w1) && walk_loops(m, id, w2) {
            if n1 <= n2 {
                assert(w1[n1 - 1] == w2[n1 - 1]);
                if n1 < n2 {
                    lemma_walk_stored(m, id, w2, n1 - 1);
                }
            } else {
                assert(w1[n2 - 1] == w2[n2 - 1]);
                assert(links_to(m, w1[n2 - 1], w1[n2 as int]));
                let t = w1[n2 as int];
                let j = choose|j: int| 0 <= j < w2.len() && w2[j] == t;
                assert(w1[j] == w2[j]);
            }
        }
    }
}

fn follow_chain<'a, S: Storage>(storage: &'a S, id: &String) -> (r: Result<
    Vec<&'a ssh::Profile>,
    ChainEnd,
>)
    ensures
        follows(storage.profiles(), id@, r),
{
    let ghost m = storage.profiles();
    proof {
        storage.lemma_profiles_finite();
    }
    let mut visited: Vec<String> = Vec::new();
    let mut chain: Vec<&'a crate::profile::Profile> = Vec::new();
    let mut cur: String = id.clone();
    loop
        invariant
            m == storage.profiles(),
            m.dom().finite(),
            chain@.len() == visited@.len(),
            visited@.len() <= m.dom().len(),
            is_walk(m, id@, string_views(visited@).push(cur@)) || string_views(visited@).contains(
                cur@,
            ),
            visited@.len() == 0 ==> cur@ == id@,
            visited@.len() > 0 ==> links_to(m, visited@.last()@, cur@),
            visited@.len() > 0 ==> is_walk(m, id@, string_views(visited@)),
            forall|i: int| 0 <= i < visited@.len() ==> m.contains_key(#[trigger] visited@[i]@),
            forall|i: int|
                0 <= i < visited@.len() ==> (#[trigger] chain@[i])@ == m[visited@[i]@],
        decreases m.dom().len() - visited@.len(),
    {
        let ghost w = string_views(visited@);
        if contains_id(&visited, &cur) {
            proof {
                assert(visited@.len() > 0);
                assert(w.last() == visited@.last()@);
                assert(walk_loops(m, id@, w));
            }
            return Err(ChainEnd::Loop);
        }
        proof {
            assert(is_walk(m, id@, w.push(cur@)));
        }
        match storage.get(&cur) {
            Err(_) => {
                proof {
                    assert(walk_breaks(m, id@, w.push(cur@)));
                }
                return Err(ChainEnd::Missing);
            },
            Ok(p) => {
                let next = match &p.transport {
                    Some(t) => Some(t.clone()),
                    None => None,
                };
                visited.push(cur);
                chain.push(p);
                proof {
                    let w2 = string_views(visited@);
                    assert(w2 =~= w.push(visited@.last()@));
                    assert forall|i: int| 0 <= i < w2.len() implies m.contains_key(#[trigger] w2[i]) by {
                        assert(w2[i] == visited@[i]@);
                    }
                    lemma_distinct_keys_bounded(w2, m);
                }
                match next {
                    None => {
                        let ghost wf = string_views(visited@);
                        assert(walk_completes(m, id@, wf));
                        let plan = ssh_in_connection_order(&chain, Ghost(m), Ghost(wf));
                        return Ok(plan);
                    },
                    Some(t) => {
                        cur = t;
                    },
                }
            },
        }
    }
}

/// Plans a session for the profile stored under `id`: follows the transport
/// references from it and returns the SSH profiles to connect to, the far
/// end of the chain first and `id`'s own profile last. Fails with
/// `ProfileNotFound` when the references reach an identifier that is not
/// stored.
///
/// The references must not come back to a profile already passed: on such a
/// store a session would be opened through itself without end.
/// `transport_cycle` tells whether that is so.
pub fn plan_session<'a, S: Storage>(storage: &'a S, id: &String) -> (r: Result<
    Vec<&'a ssh::Profile>,
    SessionError,
>)
    requires
        acyclic_from(storage.profiles(), id@),
    ensures
        is_plan_for(storage.profiles(), id@, plan_view(r)),
{
    match follow_chain(storage, id) {
        Ok(plan) => Ok(plan),
        Err(ChainEnd::Missing) => Err(SessionError::ProfileNotFound),
        Err(ChainEnd::Loop) => {
            proof {
                let w = choose|w: Seq<Seq<char>>| walk_loops(storage.profiles(), id@, w);
                assert(!walk_loops(storage.profiles(), id@, w));
            }
            Err(SessionError::ProfileNotFound)
        },
    }
}

/// Whether following the transport references from `id` comes back to a
/// profile already passed.
pub fn transport_cycle<S: Storage>(storage: &S, id: &String) -> (r: bool)
    ensures
        r <==> !acyclic_from(storage.profiles(), id@),
{
    let ghost m = storage.profiles();
    match follow_chain(storage, id) {
        Ok(_) => {
            proof {
                let w = choose|w: Seq<Seq<char>>| walk_completes(m, id@, w);
                assert forall|w2: Seq<Seq<char>>| !#[trigger] walk_loops(m, id@, w2) by {
                    law_plan_outcome_is_determined(m, id@, w, w2);
                }
            }
            false
        },
        Err(ChainEnd::Missing) => {
            proof {
                let w = choose|w: Seq<Seq<char>>| walk_breaks(m, id@, w);
                assert forall|w2: Seq<Seq<char>>| !#[trigger] walk_loops(m, id@, w2) by {
                    law_plan_outcome_is_determined(m, id@, w, w2);
                }
            }
            false
        },
        Err(ChainEnd::Loop) => true,
    }
}

} // verus!
