//! The decisions of the `characteristics` command: where the fan associations come from,
//! and which controllers to analyse.

use vstd::prelude::*;

use crate::commands::service::{contains_key, controlled_positions};
use crate::text::{compare_text, text_lt, TextOrder};

verus! {

/// How reading the stored fan associations went.
#[derive(Clone, Copy, PartialEq, Eq, Debug, Structural)]
pub enum StoredAssociations {
    /// They were read.
    Read,
    /// There are none stored yet.
    NotFound,
    /// They could not be read or parsed.
    Unreadable,
}

/// Where the fan associations come from.
#[derive(Clone, Copy, PartialEq, Eq, Debug, Structural)]
pub enum AssociationSource {
    /// Use the stored ones.
    Stored,
    /// Run the discovery.
    Discover,
    /// Give up.
    Abort,
}

/// Stored associations are used unless a rediscovery is forced or there are none;
/// unreadable ones stop the command.
pub fn association_source(force_rediscover: bool, stored: StoredAssociations) -> (r: AssociationSource)
    ensures
        force_rediscover ==> r == AssociationSource::Discover,
        !force_rediscover ==> (stored == StoredAssociations::Read ==> r == AssociationSource::Stored),
        !force_rediscover ==> (stored == StoredAssociations::NotFound ==> r == AssociationSource::Discover),
        !force_rediscover ==> (stored == StoredAssociations::Unreadable ==> r == AssociationSource::Abort),
{
    if force_rediscover {
        AssociationSource::Discover
    } else {
        match stored {
            StoredAssociations::Read => AssociationSource::Stored,
            StoredAssociations::NotFound => AssociationSource::Discover,
            StoredAssociations::Unreadable => AssociationSource::Abort,
        }
    }
}

/// How a discovery went.
#[derive(Clone, Copy, PartialEq, Eq, Debug, Structural)]
pub enum DiscoveryOutcome {
    /// Discovered and stored.
    Saved,
    /// Discovered, but storing the result failed.
    NotSaved,
    /// The discovery failed.
    Failed,
}

/// Discovered associations are used even if they could not be stored.
pub fn use_discovery(outcome: DiscoveryOutcome) -> (r: bool)
    ensures
        r <==> outcome != DiscoveryOutcome::Failed,
{
    match outcome {
        DiscoveryOutcome::Failed => false,
        _ => true,
    }
}

/// Whether the controller at position `a` is analysed before the one at position `b`
/// (`keys` gives each controller's key): by key, and in scan order among equal keys.
pub open spec fn analysed_before(keys: Seq<Seq<char>>, a: int, b: int) -> bool {
    text_lt(keys[a], keys[b]) || (keys[a] == keys[b] && a < b)
}

/// The positions of the controllers to analyse, before ordering: all of them if no key was
/// asked for, else those whose key was asked for.
pub open spec fn selected_positions(keys: Seq<Seq<char>>, wanted: Seq<Seq<char>>) -> Seq<int> {
    if wanted.len() == 0 {
        Seq::new(keys.len(), |i: int| i)
    } else {
        controlled_positions(keys, wanted)
    }
}

/// Positions of `s` come in the order `analysed_before`.
pub open spec fn in_analysis_order(keys: Seq<Seq<char>>, s: Seq<int>) -> bool {
    forall|i: int, j: int| 0 <= i < j < s.len() ==> analysed_before(keys, #[trigger] s[i], #[trigger] s[j])
}

proof fn lemma_analysed_before_transitive(keys: Seq<Seq<char>>, a: int, b: int, c: int)
    requires
        analysed_before(keys, a, b),
        analysed_before(keys, b, c),
    ensures
        analysed_before(keys, a, c),
{
    if text_lt(keys[a], keys[b]) && text_lt(keys[b], keys[c]) {
        crate::text::lemma_text_lt_transitive(keys[a], keys[b], keys[c]);
    }
}

/// Picks the controllers (given by their keys, in scan order) to analyse: if `wanted` is
/// empty, all of them in scan order; else those whose key is in `wanted`, sorted by key
/// (a stable sort, so equal keys keep their scan order).
pub fn select_controllers(keys: &Vec<String>, wanted: &Vec<String>) -> (r: Vec<usize>)
    ensures
        r@.map_values(|i: usize| i as int).to_multiset() == selected_positions(
            keys@.map_values(|k: String| k@),
            wanted@.map_values(|k: String| k@),
        ).to_multiset(),
        wanted@.len() == 0 ==> r@.map_values(|i: usize| i as int) == Seq::new(keys@.len(), |i: int| i),
        wanted@.len() > 0 ==> in_analysis_order(keys@.map_values(|k: String| k@), r@.map_values(|i: usize| i as int)),
{
    let ghost ks = keys@.map_values(|k: String| k@);
    let ghost cs = wanted@.map_values(|k: String| k@);
    let n = keys.len();
    let mut out: Vec<usize> = Vec::new();
    if wanted.len() == 0 {
        for i in 0..n
            invariant
                n == keys@.len(),
                out@.len() == i,
                forall|j: int| 0 <= j < i ==> out@[j] == j,
        {
            out.push(i);
        }
        proof {
            assert(out@.map_values(|i: usize| i as int) =~= Seq::new(n as nat, |j: int| j));
        }
        return out;
    }
    proof {
        assert(ks.take(0) =~= Seq::<Seq<char>>::empty());
        assert(out@.map_values(|i: usize| i as int) =~= Seq::<int>::empty());
    }
    for i in 0..n
        invariant
            n == keys@.len(),
            ks == keys@.map_values(|k: String| k@),
            cs == wanted@.map_values(|k: String| k@),
            forall|j: int| 0 <= j < out@.len() ==> (#[trigger] out@[j]) < i,
            in_analysis_order(ks, out@.map_values(|i: usize| i as int)),
            out@.map_values(|i: usize| i as int).to_multiset() == controlled_positions(ks.take(i as int), cs).to_multiset(),
    {
        proof {
            assert(ks.take(i + 1).drop_last() == ks.take(i as int));
            assert(ks.take(i + 1).last() == keys@[i as int]@);
        }
        if contains_key(wanted, keys[i].as_str()) {
            let m = out.len();
            let mut pos: usize = 0;
            while pos < m
                invariant
                    m == out@.len(),
                    n == keys@.len(),
                    i < n,
                    ks == keys@.map_values(|k: String| k@),
                    pos <= m,
                    forall|j: int| 0 <= j < m ==> (#[trigger] out@[j]) < i,
                    forall|j: int| 0 <= j < pos ==> analysed_before(ks, #[trigger] out@[j] as int, i as int),
                ensures
                    pos <= m,
                    forall|j: int| 0 <= j < pos ==> analysed_before(ks, #[trigger] out@[j] as int, i as int),
                    pos < m ==> analysed_before(ks, i as int, out@[pos as int] as int),
                decreases m - pos,
            {
                let o = out[pos];
                let ord = compare_text(keys[i].as_str(), keys[o].as_str());
                proof {
                    crate::text::lemma_text_lt_trichotomy(ks[i as int], ks[o as int]);
                }
                match ord {
                    TextOrder::Less => {
                        break;
                    },
                    _ => {},
                }
                pos = pos + 1;
            }
            let ghost old_out = out@;
            let ghost old_pos = old_out.map_values(|i: usize| i as int);
            proof {
                assert forall|j: int| pos <= j < m implies analysed_before(ks, i as int, #[trigger] old_pos[j]) by {
                    if j > pos {
                        assert(analysed_before(ks, old_pos[pos as int], old_pos[j]));
                        lemma_analysed_before_transitive(ks, i as int, old_pos[pos as int], old_pos[j]);
                    }
                }
            }
            out.insert(pos, i);
            proof {
                let np = out@.map_values(|i: usize| i as int);
                assert(np =~= old_pos.insert(pos as int, i as int));
                vstd::seq_lib::to_multiset_insert(old_pos, pos as int, i as int);
                let prev = controlled_positions(ks.take(i as int), cs);
                vstd::seq_lib::to_multiset_insert(prev, prev.len() as int, i as int);
                assert(prev.insert(prev.len() as int, i as int) =~= prev.push(i as int));
                assert forall|a: int, b: int| 0 <= a < b < np.len() implies analysed_before(ks, #[trigger] np[a], #[trigger] np[b]) by {
                    if b < pos {
                        assert(np[a] == old_pos[a] && np[b] == old_pos[b]);
                        assert(analysed_before(ks, old_pos[a], old_pos[b]));
                    } else if b == pos {
                        assert(np[a] == old_pos[a]);
                    } else if a < pos {
                        assert(np[a] == old_pos[a] && np[b] == old_pos[b - 1]);
                        lemma_analysed_before_transitive(ks, np[a], i as int, np[b]);
                    } else if a == pos {
                        assert(np[b] == old_pos[b - 1]);
                    } else {
                        assert(np[a] == old_pos[a - 1] && np[b] == old_pos[b - 1]);
                        assert(analysed_before(ks, old_pos[a - 1], old_pos[b - 1]));
                    }
                }
            }
        }
    }
    proof {
        assert(ks.take(n as int) == ks);
    }
    out
}

} // verus!
