use rand::distributions::Standard;
use rand::Rng;
use which_sort::sort::bubble::{create_iterator, BubbleSort};
use which_sort::sort::{Sort, SortPointer};

fn generate_random_data(size: usize) -> Vec<f64> {
    rand::thread_rng()
        .sample_iter::<f64, Standard>(Standard)
        .take(size)
        .map(|x| x * 100.0)
        .collect()
}

// Non-negative floats order as their bit patterns do.
fn keys(data: &[f64]) -> Vec<u64> {
    data.iter().map(|x| x.to_bits()).collect()
}

fn values(keys: &[u64]) -> Vec<f64> {
    keys.iter().map(|k| f64::from_bits(*k)).collect()
}

fn is_sorted(data: &Vec<f64>) -> bool {
    data.windows(2).all(|w| w[0] <= w[1])
}

#[test]
fn bubble_test_final_sort() {
    let items = generate_random_data(100);
    let result = create_iterator(&keys(&items.clone())).into_iter().last();
    let (data, _) = result.unwrap();
    let sorted = is_sorted(&values(&data));
    assert!(sorted);
}

#[test]
fn bubble_leaves_the_input_alone() {
    let input = vec![5, 4, 3, 2, 1];
    let _ = create_iterator(&input);
    assert_eq!(input, vec![5, 4, 3, 2, 1]);
}

#[test]
fn bubble_records_every_comparison() {
    let steps = create_iterator(&vec![3, 1, 2]);
    assert_eq!(steps.len(), 3);
    assert_eq!(steps[0], (vec![1, 3, 2], SortPointer(0, 1)));
    assert_eq!(steps[1], (vec![1, 2, 3], SortPointer(1, 2)));
    assert_eq!(steps[2], (vec![1, 2, 3], SortPointer(0, 1)));
}

#[test]
fn bubble_on_sorted_input_records_all_pairs() {
    for n in 0..12usize {
        let input: Vec<u64> = (0..n as u64).collect();
        let steps = create_iterator(&input);
        assert_eq!(steps.len(), n * n.saturating_sub(1) / 2);
        for (snapshot, _) in &steps {
            assert_eq!(snapshot, &input);
        }
    }
}

#[test]
fn bubble_step_count_does_not_depend_on_the_order() {
    assert_eq!(create_iterator(&vec![4, 3, 2, 1]).len(), 6);
    assert_eq!(create_iterator(&vec![1, 2, 3, 4]).len(), 6);
    assert_eq!(create_iterator(&vec![2, 2, 2, 2]).len(), 6);
}

#[test]
fn bubble_pointers_walk_each_pass() {
    let steps = create_iterator(&vec![4, 3, 2, 1]);
    let pointers: Vec<SortPointer> = steps.iter().map(|s| s.1).collect();
    assert_eq!(
        pointers,
        vec![
            SortPointer(0, 1),
            SortPointer(1, 2),
            SortPointer(2, 3),
            SortPointer(0, 1),
            SortPointer(1, 2),
            SortPointer(0, 1),
        ]
    );
    assert_eq!(steps[0].0, vec![3, 4, 2, 1]);
    assert_eq!(steps[2].0, vec![3, 2, 1, 4]);
    assert_eq!(steps[5].0, vec![1, 2, 3, 4]);
}

#[test]
fn bubble_ties_are_not_exchanged() {
    let steps = create_iterator(&vec![7, 7]);
    assert_eq!(steps, vec![(vec![7, 7], SortPointer(0, 1))]);
}

#[test]
fn bubble_short_inputs_record_nothing() {
    assert!(create_iterator(&vec![]).is_empty());
    assert!(create_iterator(&vec![9]).is_empty());
}

#[test]
fn bubble_session_starts_paused_on_its_input() {
    let sort = BubbleSort::new(vec![2, 1]);
    assert_eq!(sort.items(), &vec![2, 1]);
    assert_eq!(*sort.get_pointer(), SortPointer(0, 1));
    assert_eq!(sort.get_current_step(), 0);
    assert!(!sort.is_active());
    assert!(!sort.is_sorted());
    assert_eq!(sort.get_name(), "Bubble Sort".to_string());
}

#[test]
fn bubble_session_replays_the_recording() {
    let mut sort = BubbleSort::new(vec![3, 1, 2]);
    let recorded = create_iterator(&vec![3, 1, 2]);
    for (k, (snapshot, pointer)) in recorded.iter().enumerate() {
        let (items, shown) = sort.step();
        assert_eq!(items, snapshot);
        assert_eq!(shown, pointer);
        assert_eq!(sort.get_current_step(), k + 1);
        assert!(!sort.is_sorted());
    }
    sort.step();
    assert!(sort.is_sorted());
    assert_eq!(sort.get_current_step(), 3);
    assert_eq!(sort.items(), &vec![1, 2, 3]);
}
