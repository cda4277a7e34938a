use anime::matching::find_candidate_matches;
use anime::{MatchCandidate, MatchesMap};

fn lens(candidate: &MatchCandidate) -> Vec<f64> {
    candidate
        .shared_lens
        .iter()
        .map(|l| f64::from_bits(*l))
        .collect()
}

#[test]
fn a_new_store_is_empty() {
    let store = MatchesMap::new();
    assert!(store.is_empty());
    assert_eq!(store.len(), 0);
    assert!(store.keys().is_empty());
    assert!(!store.contains_key(&0));
    assert!(store.get(&0).is_none());
}

#[test]
fn record_makes_a_candidate_for_a_new_pair() {
    let mut store = MatchesMap::new();
    store.record(3, 7, 2.5f64.to_bits());
    assert!(!store.is_empty());
    assert!(store.contains_key(&3));
    assert!(!store.contains_key(&2));
    assert!(!store.contains_key(&4));
    let list = store.get(&3).unwrap();
    assert_eq!(list.len(), 1);
    assert_eq!(list[0].source_index, 7);
    assert_eq!(lens(&list[0]), vec![2.5]);
}

#[test]
fn record_adds_to_the_candidate_of_a_known_pair() {
    let mut store = MatchesMap::new();
    store.record(0, 4, 1.0f64.to_bits());
    store.record(0, 9, 2.0f64.to_bits());
    store.record(0, 4, 3.0f64.to_bits());
    store.record(0, 4, 0.0f64.to_bits());
    let list = store.get(&0).unwrap();
    assert_eq!(list.len(), 2);
    assert_eq!(list[0].source_index, 4);
    assert_eq!(lens(&list[0]), vec![1.0, 3.0, 0.0]);
    assert_eq!(list[1].source_index, 9);
    assert_eq!(lens(&list[1]), vec![2.0]);
}

#[test]
fn candidates_keep_the_order_in_which_they_were_first_found() {
    let mut store = MatchesMap::new();
    for source in [5usize, 1, 3, 1, 5, 0] {
        store.record(2, source, 1.0f64.to_bits());
    }
    let sources: Vec<usize> = store.get(&2).unwrap().iter().map(|c| c.source_index).collect();
    assert_eq!(sources, vec![5, 1, 3, 0]);
}

#[test]
fn no_candidate_list_holds_a_source_twice() {
    let mut store = MatchesMap::new();
    for step in 0..200usize {
        store.record(step % 7, (step * 5) % 11, (step as f64).to_bits());
    }
    for key in store.keys() {
        let list = store.get(&key).unwrap();
        assert!(!list.is_empty());
        for a in 0..list.len() {
            assert!(!list[a].shared_lens.is_empty());
            for b in (a + 1)..list.len() {
                assert_ne!(list[a].source_index, list[b].source_index);
            }
        }
    }
}

#[test]
fn keys_come_in_strictly_ascending_order() {
    let mut store = MatchesMap::new();
    for target in [9usize, 2, 40, 2, 0, 17, 9] {
        store.record(target, 1, 1.0f64.to_bits());
    }
    assert_eq!(store.keys(), vec![0, 2, 9, 17, 40]);
    assert_eq!(store.len(), 5);
    for key in 0..50usize {
        assert_eq!(store.contains_key(&key), [0, 2, 9, 17, 40].contains(&key));
        assert_eq!(store.get(&key).is_some(), store.contains_key(&key));
    }
}

#[test]
fn a_key_far_from_the_others_costs_nothing() {
    let mut store = MatchesMap::new();
    store.record(usize::MAX, 1, 1.0f64.to_bits());
    store.record(0, usize::MAX, 2.0f64.to_bits());
    assert_eq!(store.keys(), vec![0, usize::MAX]);
    assert_eq!(store.get(&usize::MAX).unwrap()[0].source_index, 1);
    assert_eq!(store.get(&0).unwrap()[0].source_index, usize::MAX);
}

#[test]
fn a_clone_holds_the_same_matches_and_is_its_own() {
    let mut store = MatchesMap::new();
    store.record(1, 2, 3.0f64.to_bits());
    store.record(4, 0, 5.0f64.to_bits());
    let copy = store.clone();
    store.record(1, 2, 7.0f64.to_bits());
    store.record(6, 6, 6.0f64.to_bits());
    assert_eq!(copy.keys(), vec![1, 4]);
    assert_eq!(lens(&copy.get(&1).unwrap()[0]), vec![3.0]);
    assert_eq!(lens(&copy.get(&4).unwrap()[0]), vec![5.0]);
    assert_eq!(store.keys(), vec![1, 4, 6]);
    assert_eq!(lens(&store.get(&1).unwrap()[0]), vec![3.0, 7.0]);
}

#[test]
fn no_sightings_leave_an_empty_store() {
    let store = find_candidate_matches(&Vec::new(), 5.0f64.to_bits(), 0.5f64.to_bits());
    assert!(store.is_empty());
}
