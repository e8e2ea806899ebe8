//! Contact feature identities, arbiter keys, and the warm-start matching
//! rule that carries accumulated impulses across frames.

use vstd::prelude::*;

verus! {

/// Failures that can arise while merging a new contact manifold into the
/// manifold kept from the previous frame.
#[derive(Debug, Clone, Copy, PartialEq, Eq)]
pub enum ArbiterErrors {
    NoOldContactFound,
    NoNewContactFound,
}

impl ArbiterErrors {
    /// A human-readable description of the failure.
    pub fn message(&self) -> (r: String)
        ensures
            *self == ArbiterErrors::NoOldContactFound ==> r@ == "No old contacts found."@,
            *self == ArbiterErrors::NoNewContactFound ==> r@ == "No new contacts found."@,
    {
        match self {
            ArbiterErrors::NoOldContactFound => String::from_str("No old contacts found."),
            ArbiterErrors::NoNewContactFound => String::from_str("No new contacts found."),
        }
    }
}

/// The four edges of a box, together with a sentinel for "no edge yet".
#[derive(Debug, Clone, Copy, PartialEq, Eq)]
pub enum EdgeNumbers {
    NoEdge,
    Edge1,
    Edge2,
    Edge3,
    Edge4,
}

/// The incident and reference edges that produced a contact point, seen
/// from each of the two colliding bodies.
#[derive(Debug, Clone, Copy, PartialEq, Eq)]
pub struct Edges {
    pub in_edge_1: EdgeNumbers,
    pub out_edge_1: EdgeNumbers,
    pub in_edge_2: EdgeNumbers,
    pub out_edge_2: EdgeNumbers,
}

impl Default for Edges {
    /// All four edge slots start at the sentinel.
    fn default() -> (r: Self)
        ensures
            r.in_edge_1 == EdgeNumbers::NoEdge,
            r.out_edge_1 == EdgeNumbers::NoEdge,
            r.in_edge_2 == EdgeNumbers::NoEdge,
            r.out_edge_2 == EdgeNumbers::NoEdge,
    {
        Self {
            in_edge_1: EdgeNumbers::NoEdge,
            out_edge_1: EdgeNumbers::NoEdge,
            in_edge_2: EdgeNumbers::NoEdge,
            out_edge_2: EdgeNumbers::NoEdge,
        }
    }
}

/// Identity of one contact point: which edge/vertex combination produced
/// it.  Two contacts in consecutive frames are the same persistent contact
/// exactly when their `value` matches; the identity is never used for
/// physics.
#[derive(Debug, Clone, Copy, PartialEq, Eq)]
pub struct FeaturePair {
    pub edges: Edges,
    pub value: i32,
}

impl FeaturePair {
    pub fn new(edges: Edges, value: i32) -> (r: Self)
        ensures
            r.edges == edges,
            r.value == value,
    {
        Self { edges, value }
    }
}

impl Default for FeaturePair {
    /// A feature pair with all edges at the sentinel and value zero.
    fn default() -> (r: Self)
        ensures
            r.edges == (Edges {
                in_edge_1: EdgeNumbers::NoEdge,
                out_edge_1: EdgeNumbers::NoEdge,
                in_edge_2: EdgeNumbers::NoEdge,
                out_edge_2: EdgeNumbers::NoEdge,
            }),
            r.value == 0,
    {
        Self {
            edges: Edges {
                in_edge_1: EdgeNumbers::NoEdge,
                out_edge_1: EdgeNumbers::NoEdge,
                in_edge_2: EdgeNumbers::NoEdge,
                out_edge_2: EdgeNumbers::NoEdge,
            },
            value: 0,
        }
    }
}

/// The canonical ordering of a pair of body identities: the smaller
/// identity always comes first.
pub open spec fn canonical_pair(id_a: usize, id_b: usize) -> (usize, usize) {
    if id_a < id_b {
        (id_a, id_b)
    } else {
        (id_b, id_a)
    }
}

/// Key of the arbiter cache: an unordered pair of body identities, stored
/// in canonical order so the key does not depend on which body came first.
#[derive(Debug, Clone, Copy, PartialEq, Eq, Hash, Structural)]
pub struct ArbiterKey {
    body1_id: usize,
    body2_id: usize,
}

impl ArbiterKey {
    /// The two body identities, in stored order.
    pub closed spec fn ids(&self) -> (usize, usize) {
        (self.body1_id, self.body2_id)
    }

    pub fn new(body1_id: usize, body2_id: usize) -> (r: Self)
        ensures
            r.ids() == canonical_pair(body1_id, body2_id),
    {
        if body1_id < body2_id {
            Self { body1_id, body2_id }
        } else {
            Self { body1_id: body2_id, body2_id: body1_id }
        }
    }
}

/// The arbiter key for a pair of bodies is independent of the order in
/// which the two bodies are presented.
pub proof fn lemma_key_order_independent(id_a: usize, id_b: usize)
    ensures
        canonical_pair(id_a, id_b) == canonical_pair(id_b, id_a),
{
}

/// Looks up the first old contact whose feature value matches
/// `feature_value`, the rule by which a fresh manifold is merged with the
/// manifold of the previous frame.
pub fn find_matching_contact(old_features: &Vec<i32>, feature_value: i32) -> (r: Option<usize>)
    ensures
        match r {
            Some(j) => j < old_features@.len() && old_features@[j as int] == feature_value
                && (forall|k: int| 0 <= k < j ==> old_features@[k] != feature_value),
            None => forall|k: int|
                0 <= k < old_features@.len() ==> old_features@[k] != feature_value,
        },
{
    let mut i: usize = 0;
    while i < old_features.len()
        invariant
            i <= old_features@.len(),
            forall|k: int| 0 <= k < i ==> old_features@[k] != feature_value,
        decreases old_features@.len() - i,
    {
        if old_features[i] == feature_value {
            return Some(i);
        }
        i = i + 1;
    }
    None
}

/// A scan that stopped at the first occurrence found exactly what
/// `index_of_first` denotes.
proof fn lemma_first_match(s: Seq<i32>, v: i32, j: int)
    requires
        0 <= j < s.len(),
        s[j] == v,
        forall|k: int| 0 <= k < j ==> s[k] != v,
    ensures
        s.index_of_first(v) == Some(j),
{
    s.index_of_first_ensures(v);
    match s.index_of_first(v) {
        Some(f) => {
            if f < j {
                assert(s[f] != v);
            } else if j < f {
                assert(s[j] != v);
            }
        }
        None => {
            assert(s.contains(v));
        }
    }
}

/// A scan that found no occurrence means `index_of_first` denotes none.
proof fn lemma_no_match(s: Seq<i32>, v: i32)
    requires
        forall|k: int| 0 <= k < s.len() ==> s[k] != v,
    ensures
        s.index_of_first(v) is None,
{
    s.index_of_first_ensures(v);
    match s.index_of_first(v) {
        Some(f) => {
            assert(s[f] == v);
        }
        None => {}
    }
}

/// What the impulse state of a merged contact is: a new contact that
/// matches an old one by feature value carries the old accumulated state
/// forward when warm starting is enabled and starts from `fresh` when it
/// is not; a contact without a match keeps its own state.
pub open spec fn merged_state<P>(
    old_features: Seq<i32>,
    old_states: Seq<P>,
    feature_value: i32,
    own_state: P,
    warm_starting: bool,
    fresh: P,
) -> P {
    match old_features.index_of_first(feature_value) {
        Some(j) => if warm_starting {
            old_states[j]
        } else {
            fresh
        },
        None => own_state,
    }
}

/// Merges a new contact manifold with the manifold kept from the previous
/// frame: for every new contact, the accumulated impulse state it starts
/// the solver with.  The geometry of the new contacts is untouched; only
/// geometrically persistent contacts — same feature value — ever carry
/// state across frames, and only while warm starting is enabled.
pub fn merge_manifold<P: Copy>(
    old_features: &Vec<i32>,
    old_states: &Vec<P>,
    new_features: &Vec<i32>,
    new_states: &Vec<P>,
    warm_starting: bool,
    fresh: P,
) -> (r: Vec<P>)
    requires
        old_features@.len() == old_states@.len(),
        new_features@.len() == new_states@.len(),
    ensures
        r@.len() == new_features@.len(),
        forall|i: int|
            0 <= i < r@.len() ==> r@[i] == merged_state(
                old_features@,
                old_states@,
                new_features@[i],
                new_states@[i],
                warm_starting,
                fresh,
            ),
{
    let mut r: Vec<P> = Vec::new();
    let mut i: usize = 0;
    while i < new_features.len()
        invariant
            old_features@.len() == old_states@.len(),
            new_features@.len() == new_states@.len(),
            i <= new_features@.len(),
            r@.len() == i,
            forall|t: int|
                0 <= t < i ==> r@[t] == merged_state(
                    old_features@,
                    old_states@,
                    new_features@[t],
                    new_states@[t],
                    warm_starting,
                    fresh,
                ),
        decreases new_features@.len() - i,
    {
        let feature_value = new_features[i];
        match find_matching_contact(old_features, feature_value) {
            Some(j) => {
                proof {
                    lemma_first_match(old_features@, feature_value, j as int);
                }
                if warm_starting {
                    r.push(old_states[j]);
                } else {
                    r.push(fresh);
                }
            }
            None => {
                proof {
                    lemma_no_match(old_features@, feature_value);
                }
                r.push(new_states[i]);
            }
        }
        i = i + 1;
    }
    r
}

} // verus!
