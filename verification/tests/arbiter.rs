use sylt_2d::arbiter::{
    find_matching_contact, merge_manifold, ArbiterErrors, ArbiterKey, EdgeNumbers, Edges,
    FeaturePair,
};
use sylt_2d::collide::{clipped_feature, flip, incident_edge_features};

#[test]
fn feature_pair_construction() {
    let edges = Edges {
        in_edge_1: EdgeNumbers::Edge1,
        out_edge_1: EdgeNumbers::Edge2,
        in_edge_2: EdgeNumbers::Edge3,
        out_edge_2: EdgeNumbers::Edge4,
    };
    let fp = FeaturePair::new(edges, 7);
    assert_eq!(fp.value, 7);
    assert_eq!(fp.edges, edges);
    let d = FeaturePair::default();
    assert_eq!(d.value, 0);
    assert_eq!(d.edges, Edges::default());
    assert_eq!(d.edges.in_edge_1, EdgeNumbers::NoEdge);
}

#[test]
fn flip_swaps_the_bodies_roles() {
    let mut fp = FeaturePair::new(
        Edges {
            in_edge_1: EdgeNumbers::Edge1,
            out_edge_1: EdgeNumbers::Edge2,
            in_edge_2: EdgeNumbers::Edge3,
            out_edge_2: EdgeNumbers::Edge4,
        },
        3,
    );
    flip(&mut fp);
    assert_eq!(fp.edges.in_edge_1, EdgeNumbers::Edge3);
    assert_eq!(fp.edges.in_edge_2, EdgeNumbers::Edge1);
    assert_eq!(fp.edges.out_edge_1, EdgeNumbers::Edge4);
    assert_eq!(fp.edges.out_edge_2, EdgeNumbers::Edge2);
    assert_eq!(fp.value, 3);
}

#[test]
fn flip_twice_restores_the_feature() {
    let original = FeaturePair::new(
        Edges {
            in_edge_1: EdgeNumbers::Edge2,
            out_edge_1: EdgeNumbers::NoEdge,
            in_edge_2: EdgeNumbers::Edge4,
            out_edge_2: EdgeNumbers::Edge1,
        },
        -5,
    );
    let mut fp = original;
    flip(&mut fp);
    flip(&mut fp);
    assert_eq!(fp, original);
}

#[test]
fn arbiter_key_is_order_independent() {
    assert_eq!(ArbiterKey::new(1, 2), ArbiterKey::new(2, 1));
    assert_eq!(ArbiterKey::new(5, 5), ArbiterKey::new(5, 5));
    assert_ne!(ArbiterKey::new(1, 2), ArbiterKey::new(1, 3));
}

#[test]
fn matching_finds_the_first_equal_feature() {
    let old_features = vec![5, 7, 5];
    assert_eq!(find_matching_contact(&old_features, 5), Some(0));
    assert_eq!(find_matching_contact(&old_features, 7), Some(1));
    assert_eq!(find_matching_contact(&old_features, 9), None);
    assert_eq!(find_matching_contact(&Vec::new(), 0), None);
}

#[test]
fn merge_carries_impulses_for_persistent_contacts() {
    let old_features = vec![4, 8];
    let old_states = vec![(10, 11), (20, 21)];
    // feature 8 persists and carries its state, feature 6 is new and keeps
    // its own
    let new_features = vec![8, 6];
    let new_states = vec![(0, 0), (5, 5)];
    let merged = merge_manifold(&old_features, &old_states, &new_features, &new_states, true, (0, 0));
    assert_eq!(merged, vec![(20, 21), (5, 5)]);
}

#[test]
fn merge_zeroes_matched_contacts_without_warm_starting() {
    let old_features = vec![4, 8];
    let old_states = vec![(10, 11), (20, 21)];
    let new_features = vec![8, 6];
    let new_states = vec![(1, 1), (5, 5)];
    let merged =
        merge_manifold(&old_features, &old_states, &new_features, &new_states, false, (0, 0));
    // the matched contact is reset, the unmatched one keeps its own state
    assert_eq!(merged, vec![(0, 0), (5, 5)]);
}

#[test]
fn merge_takes_the_first_of_equal_features() {
    let old_features = vec![7, 7];
    let old_states = vec![(1, 0), (2, 0)];
    let new_features = vec![7];
    let new_states = vec![(0, 0)];
    let merged = merge_manifold(&old_features, &old_states, &new_features, &new_states, true, (0, 0));
    assert_eq!(merged, vec![(1, 0)]);
}

#[test]
fn incident_edge_feature_tables() {
    let (first, second) = incident_edge_features(true, true);
    assert_eq!(first.in_edge_2, EdgeNumbers::Edge3);
    assert_eq!(first.out_edge_2, EdgeNumbers::Edge4);
    assert_eq!(second.in_edge_2, EdgeNumbers::Edge4);
    assert_eq!(second.out_edge_2, EdgeNumbers::Edge1);
    assert_eq!(first.in_edge_1, EdgeNumbers::NoEdge);
    assert_eq!(first.out_edge_1, EdgeNumbers::NoEdge);

    let (first, second) = incident_edge_features(false, false);
    assert_eq!(first.in_edge_2, EdgeNumbers::Edge2);
    assert_eq!(first.out_edge_2, EdgeNumbers::Edge3);
    assert_eq!(second.in_edge_2, EdgeNumbers::Edge3);
    assert_eq!(second.out_edge_2, EdgeNumbers::Edge4);
}

#[test]
fn clipped_feature_records_the_clipping_edge() {
    let fp = FeaturePair::new(
        Edges {
            in_edge_1: EdgeNumbers::Edge1,
            out_edge_1: EdgeNumbers::Edge2,
            in_edge_2: EdgeNumbers::Edge3,
            out_edge_2: EdgeNumbers::Edge4,
        },
        9,
    );
    let entering = clipped_feature(fp, EdgeNumbers::Edge2, true);
    assert_eq!(entering.edges.in_edge_1, EdgeNumbers::Edge2);
    assert_eq!(entering.edges.in_edge_2, EdgeNumbers::NoEdge);
    assert_eq!(entering.edges.out_edge_1, EdgeNumbers::Edge2);
    assert_eq!(entering.edges.out_edge_2, EdgeNumbers::Edge4);
    assert_eq!(entering.value, 9);

    let leaving = clipped_feature(fp, EdgeNumbers::Edge3, false);
    assert_eq!(leaving.edges.out_edge_1, EdgeNumbers::Edge3);
    assert_eq!(leaving.edges.out_edge_2, EdgeNumbers::NoEdge);
    assert_eq!(leaving.edges.in_edge_1, EdgeNumbers::Edge1);
    assert_eq!(leaving.edges.in_edge_2, EdgeNumbers::Edge3);
    assert_eq!(leaving.value, 9);
}

#[test]
fn arbiter_error_messages() {
    assert_eq!(ArbiterErrors::NoOldContactFound.message(), "No old contacts found.");
    assert_eq!(ArbiterErrors::NoNewContactFound.message(), "No new contacts found.");
}
