//! The feature-identity bookkeeping of the box-box clipping collision.
//!
//! The clipping itself works on floating-point geometry and is carried out
//! by the surrounding application; the rule that re-expresses a feature
//! pair from the other body's perspective is exact and verified here.

use vstd::prelude::*;
use crate::arbiter::{EdgeNumbers, Edges, FeaturePair};

verus! {

/// The feature identities of the two vertices of the incident edge: the
/// edge of the incident box most anti-parallel to the reference normal.
/// `x_dominant` says which component of the normal, expressed in the
/// incident box's frame and negated, is larger in magnitude, and
/// `positive` gives that component's sign; together they select one of the
/// four edges and with it the diagonal pair of corners.
pub fn incident_edge_features(x_dominant: bool, positive: bool) -> (r: (Edges, Edges))
    ensures
        x_dominant && positive ==> r == ((
            Edges {
                in_edge_1: EdgeNumbers::NoEdge,
                out_edge_1: EdgeNumbers::NoEdge,
                in_edge_2: EdgeNumbers::Edge3,
                out_edge_2: EdgeNumbers::Edge4,
            },
            Edges {
                in_edge_1: EdgeNumbers::NoEdge,
                out_edge_1: EdgeNumbers::NoEdge,
                in_edge_2: EdgeNumbers::Edge4,
                out_edge_2: EdgeNumbers::Edge1,
            },
        )),
        x_dominant && !positive ==> r == ((
            Edges {
                in_edge_1: EdgeNumbers::NoEdge,
                out_edge_1: EdgeNumbers::NoEdge,
                in_edge_2: EdgeNumbers::Edge1,
                out_edge_2: EdgeNumbers::Edge2,
            },
            Edges {
                in_edge_1: EdgeNumbers::NoEdge,
                out_edge_1: EdgeNumbers::NoEdge,
                in_edge_2: EdgeNumbers::Edge2,
                out_edge_2: EdgeNumbers::Edge3,
            },
        )),
        !x_dominant && positive ==> r == ((
            Edges {
                in_edge_1: EdgeNumbers::NoEdge,
                out_edge_1: EdgeNumbers::NoEdge,
                in_edge_2: EdgeNumbers::Edge4,
                out_edge_2: EdgeNumbers::Edge1,
            },
            Edges {
                in_edge_1: EdgeNumbers::NoEdge,
                out_edge_1: EdgeNumbers::NoEdge,
                in_edge_2: EdgeNumbers::Edge1,
                out_edge_2: EdgeNumbers::Edge2,
            },
        )),
        !x_dominant && !positive ==> r == ((
            Edges {
                in_edge_1: EdgeNumbers::NoEdge,
                out_edge_1: EdgeNumbers::NoEdge,
                in_edge_2: EdgeNumbers::Edge2,
                out_edge_2: EdgeNumbers::Edge3,
            },
            Edges {
                in_edge_1: EdgeNumbers::NoEdge,
                out_edge_1: EdgeNumbers::NoEdge,
                in_edge_2: EdgeNumbers::Edge3,
                out_edge_2: EdgeNumbers::Edge4,
            },
        )),
{
    let no_edges = Edges {
        in_edge_1: EdgeNumbers::NoEdge,
        out_edge_1: EdgeNumbers::NoEdge,
        in_edge_2: EdgeNumbers::NoEdge,
        out_edge_2: EdgeNumbers::NoEdge,
    };
    let mut first = no_edges;
    let mut second = no_edges;
    if x_dominant {
        if positive {
            first.in_edge_2 = EdgeNumbers::Edge3;
            first.out_edge_2 = EdgeNumbers::Edge4;
            second.in_edge_2 = EdgeNumbers::Edge4;
            second.out_edge_2 = EdgeNumbers::Edge1;
        } else {
            first.in_edge_2 = EdgeNumbers::Edge1;
            first.out_edge_2 = EdgeNumbers::Edge2;
            second.in_edge_2 = EdgeNumbers::Edge2;
            second.out_edge_2 = EdgeNumbers::Edge3;
        }
    } else {
        if positive {
            first.in_edge_2 = EdgeNumbers::Edge4;
            first.out_edge_2 = EdgeNumbers::Edge1;
            second.in_edge_2 = EdgeNumbers::Edge1;
            second.out_edge_2 = EdgeNumbers::Edge2;
        } else {
            first.in_edge_2 = EdgeNumbers::Edge2;
            first.out_edge_2 = EdgeNumbers::Edge3;
            second.in_edge_2 = EdgeNumbers::Edge3;
            second.out_edge_2 = EdgeNumbers::Edge4;
        }
    }
    (first, second)
}

/// The feature identity of a contact point created where the clipped
/// segment crosses the clipping line: it inherits the identity of the
/// endpoint in front of the line and records the clipping edge — as the
/// edge the point entered through when the first endpoint was in front,
/// and as the edge it left through otherwise.
pub fn clipped_feature(
    fp: FeaturePair,
    clip_edge: EdgeNumbers,
    first_in_front: bool,
) -> (r: FeaturePair)
    ensures
        r.value == fp.value,
        first_in_front ==> r.edges == (Edges {
            in_edge_1: clip_edge,
            out_edge_1: fp.edges.out_edge_1,
            in_edge_2: EdgeNumbers::NoEdge,
            out_edge_2: fp.edges.out_edge_2,
        }),
        !first_in_front ==> r.edges == (Edges {
            in_edge_1: fp.edges.in_edge_1,
            out_edge_1: clip_edge,
            in_edge_2: fp.edges.in_edge_2,
            out_edge_2: EdgeNumbers::NoEdge,
        }),
{
    let mut r = fp;
    if first_in_front {
        r.edges.in_edge_1 = clip_edge;
        r.edges.in_edge_2 = EdgeNumbers::NoEdge;
    } else {
        r.edges.out_edge_1 = clip_edge;
        r.edges.out_edge_2 = EdgeNumbers::NoEdge;
    }
    r
}

/// Swaps the two bodies' roles in a feature pair.  When the reference face
/// belonged to the second body, the clipped contact's feature identity is
/// flipped so it is always expressed from the first body's perspective.
pub fn flip(fp: &mut FeaturePair)
    ensures
        final(fp).edges.in_edge_1 == old(fp).edges.in_edge_2,
        final(fp).edges.in_edge_2 == old(fp).edges.in_edge_1,
        final(fp).edges.out_edge_1 == old(fp).edges.out_edge_2,
        final(fp).edges.out_edge_2 == old(fp).edges.out_edge_1,
        final(fp).value == old(fp).value,
{
    let in_1 = fp.edges.in_edge_1;
    fp.edges.in_edge_1 = fp.edges.in_edge_2;
    fp.edges.in_edge_2 = in_1;
    let out_1 = fp.edges.out_edge_1;
    fp.edges.out_edge_1 = fp.edges.out_edge_2;
    fp.edges.out_edge_2 = out_1;
}

} // verus!
