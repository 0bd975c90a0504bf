use openlock::compose::{validate_composition, CompositionError};

#[test]
fn acyclic_component_graph_is_accepted_with_decreasing_ranks() {
    // the library's own composition graph: the page root invokes the
    // shell, the navigation and the main section; main invokes the
    // user-presence card
    let adj: Vec<Vec<usize>> = vec![
        vec![],           // shell
        vec![],           // navigation
        vec![3],          // main section
        vec![],           // user card
        vec![],           // resolved user widget
        vec![0, 1, 2],    // page root
    ];
    let ranks = validate_composition(&adj).unwrap_or_else(|_| panic!("expected acceptance"));
    assert_eq!(ranks.len(), adj.len());
    for (u, row) in adj.iter().enumerate() {
        for &v in row {
            assert!(ranks[v] < ranks[u]);
        }
    }
}

#[test]
fn direct_self_invocation_is_rejected() {
    let adj: Vec<Vec<usize>> = vec![vec![0]];
    match validate_composition(&adj) {
        Err(CompositionError::Cycle { members }) => {
            assert!(members.contains(&0));
        }
        _ => panic!("expected a composition cycle error"),
    }
}

#[test]
fn indirect_cycle_is_rejected() {
    let adj: Vec<Vec<usize>> = vec![vec![1], vec![2], vec![0], vec![0]];
    match validate_composition(&adj) {
        Err(CompositionError::Cycle { members }) => {
            assert!(members.contains(&0));
            assert!(members.contains(&1));
            assert!(members.contains(&2));
            // a component that merely invokes the cycle is not ranked
            // either, so it may appear among the members
        }
        _ => panic!("expected a composition cycle error"),
    }
}

#[test]
fn undefined_reference_is_rejected() {
    let adj: Vec<Vec<usize>> = vec![vec![1], vec![5]];
    match validate_composition(&adj) {
        Err(CompositionError::UndefinedReference { from, to }) => {
            assert_eq!(from, 1);
            assert_eq!(to, 5);
        }
        _ => panic!("expected an undefined-reference error"),
    }
}

#[test]
fn diamond_composition_is_accepted() {
    let adj: Vec<Vec<usize>> = vec![vec![1, 2], vec![3], vec![3], vec![]];
    assert!(validate_composition(&adj).is_ok());
}
