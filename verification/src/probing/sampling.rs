//! Choosing nodes at random.
use crate::keys;
use crate::keys::{same_form, PublicKey};
use crate::logging;
use crate::logging::{log_warn, Level, Message};
use rand::Rng;
use vstd::prelude::*;

verus! {

/// Calls `gen_range` of the `rand` crate's thread-local generator for a number from 0 up to, but
/// not including, `n`. Nothing more can be said of the number.
#[verifier::external_body]
fn random_below(n: usize) -> (r: usize)
    requires
        n > 0,
    ensures
        r < n,
{
    rand::thread_rng().gen_range(0, n)
}

/// Whether `sample` consists of candidates at `picks`, all different places among the first `seen`.
/// A candidate is in its own place, unless it comes after the first `sample_size`: then it is in
/// the place of one that it replaced.
pub open spec fn picked<T>(
    sample: Seq<T>,
    candidates: Seq<T>,
    picks: Seq<int>,
    seen: int,
    sample_size: int,
) -> bool {
    &&& picks.len() == sample.len()
    &&& picks.no_duplicates()
    &&& forall|i: int|
        0 <= i < picks.len() ==> 0 <= #[trigger] picks[i] < seen && sample[i]
            == candidates[picks[i]]
    &&& forall|i: int|
        0 <= i < picks.len() ==> #[trigger] picks[i] == i || picks[i] >= sample_size
}

/// Puts `candidate` in the place that was drawn, if the sample has that place.
pub fn replace_drawn<T>(sample: &mut Vec<T>, drawn: usize, candidate: T)
    ensures
        drawn < old(sample)@.len() ==> final(sample)@ == old(sample)@.update(
            drawn as int,
            candidate,
        ),
        drawn >= old(sample)@.len() ==> final(sample)@ == old(sample)@,
{
    if drawn < sample.len() {
        sample.set(drawn, candidate);
    }
}

/// At most `sample_size` of the candidates, no place taken twice: all of them if they are no more,
/// else the first of them, some of which later ones have replaced at random.
pub fn reservoir_sample<T: Copy>(candidates: &[T], sample_size: usize) -> (r: Vec<T>)
    ensures
        candidates@.len() <= sample_size ==> r@ == candidates@,
        candidates@.len() > sample_size ==> r@.len() == sample_size,
        exists|picks: Seq<int>| #[trigger]
            picked(r@, candidates@, picks, candidates@.len() as int, sample_size as int),
{
    let mut reservoir: Vec<T> = Vec::new();
    let n: usize = candidates.len();
    let mut seen: usize = 0;
    let ghost mut picks: Seq<int> = Seq::empty();
    if sample_size == 0 {
        assert(picked(
            reservoir@,
            candidates@,
            picks,
            candidates@.len() as int,
            sample_size as int,
        ));
        return reservoir;
    }
    while seen < n
        invariant
            n == candidates@.len(),
            seen <= n,
            sample_size > 0,
            seen <= sample_size ==> reservoir@ == candidates@.take(seen as int),
            seen > sample_size ==> reservoir@.len() == sample_size,
            picked(reservoir@, candidates@, picks, seen as int, sample_size as int),
        decreases n - seen,
    {
        let candidate = candidates[seen];
        seen = seen + 1;
        if reservoir.len() < sample_size {
            reservoir.push(candidate);
            proof {
                picks = picks.push(seen - 1);
                assert(reservoir@ =~= candidates@.take(seen as int));
                assert(picked(reservoir@, candidates@, picks, seen as int, sample_size as int));
            }
        } else {
            let drawn = random_below(seen);
            let ghost before = reservoir@;
            replace_drawn(&mut reservoir, drawn, candidate);
            proof {
                if drawn < before.len() {
                    picks = picks.update(drawn as int, seen - 1);
                }
                assert(picked(reservoir@, candidates@, picks, seen as int, sample_size as int));
            }
        }
    }
    assert(candidates@.take(n as int) == candidates@);
    reservoir
}

/// The keys of the nodes that may be probed, in order: those of all nodes but this one, as far as
/// they are keys.
pub open spec fn probeable(nodes: Seq<[u8; 33]>, ours: Seq<u8>) -> Seq<Seq<u8>>
    decreases nodes.len(),
{
    if nodes.len() == 0 {
        Seq::empty()
    } else {
        let before = probeable(nodes.drop_last(), ours);
        if nodes.last()@ == ours {
            before
        } else {
            match keys::parsed_key(nodes.last()@) {
                Some(k) => before.push(k),
                None => before,
            }
        }
    }
}

/// The compressed forms of keys.
pub open spec fn key_views(s: Seq<PublicKey>) -> Seq<Seq<u8>> {
    Seq::new(s.len(), |i: int| s[i]@)
}

/// The keys of the nodes that may be probed, where `ours` is this node.
pub fn probe_candidates(nodes: &Vec<[u8; 33]>, ours: &[u8; 33]) -> (r: Vec<PublicKey>)
    ensures
        key_views(r@) == probeable(nodes@, ours@),
{
    let n: usize = nodes.len();
    let mut r: Vec<PublicKey> = Vec::new();
    let mut i: usize = 0;
    assert(key_views(r@) =~= probeable(nodes@.take(0), ours@));
    while i < n
        invariant
            n == nodes@.len(),
            i <= n,
            key_views(r@) == probeable(nodes@.take(i as int), ours@),
        decreases n - i,
    {
        let ghost before = r@;
        assert(nodes@.take(i + 1).drop_last() =~= nodes@.take(i as int));
        assert(nodes@.take(i + 1).last() == nodes@[i as int]);
        if !same_form(&nodes[i], ours) {
            match PublicKey::from_slice(nodes[i].as_slice()) {
                Some(k) => {
                    r.push(k);
                    assert(key_views(r@) =~= key_views(before).push(k@));
                },
                None => {},
            }
        }
        i = i + 1;
    }
    assert(nodes@.take(n as int) =~= nodes@);
    r
}

/// What is said if there are no random nodes to probe.
pub fn no_candidates_message() -> (r: Message)
    ensures
        r@ == logging::log(Level::Warn, "Random probe skipped: no graph nodes available"@),
{
    log_warn("Random probe skipped: no graph nodes available".to_owned())
}

/// The nodes that may be probed are those of the graph with a key, in order, but not this node: one more
/// node is added at the end if it is another and has a key, and is left out otherwise.
pub proof fn law_other_nodes_may_be_probed(nodes: Seq<[u8; 33]>, next: [u8; 33], ours: Seq<u8>)
    ensures
        probeable(Seq::<[u8; 33]>::empty(), ours).len() == 0,
        next@ == ours ==> probeable(nodes.push(next), ours) == probeable(nodes, ours),
        keys::parsed_key(next@) is None ==> probeable(nodes.push(next), ours) == probeable(
            nodes,
            ours,
        ),
        next@ != ours ==> (keys::parsed_key(next@) matches Some(k) ==> probeable(
            nodes.push(next),
            ours,
        ) == probeable(nodes, ours).push(k)),
{
    assert(nodes.push(next).drop_last() =~= nodes);
}

} // verus!
