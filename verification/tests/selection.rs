use rand::distributions::Standard;
use rand::Rng;
use which_sort::sort::selection::{create_iterator, SelectionSort};
use which_sort::sort::{Sort, SortPointer};

fn generate_random_data(size: usize) -> Vec<f64> {
    rand::thread_rng()
        .sample_iter::<f64, Standard>(Standard)
        .take(size)
        .map(|x| x * 100.0)
        .collect()
}

// Non-negative floats order as their bit patterns do.
fn keys(data: &[f64]) -> Vec<u64> {
    data.iter().map(|x| x.to_bits()).collect()
}

fn values(keys: &[u64]) -> Vec<f64> {
    keys.iter().map(|k| f64::from_bits(*k)).collect()
}

fn is_sorted(data: &Vec<f64>) -> bool {
    data.windows(2).all(|w| w[0] <= w[1])
}

#[test]
fn selection_test_final_sort() {
    let items = generate_random_data(100);
    let result = create_iterator(&keys(&items.clone())).into_iter().last();
    let (data, _) = result.unwrap();
    let sorted = is_sorted(&values(&data));
    assert!(sorted);
}

#[test]
fn selection_leaves_the_input_alone() {
    let input = vec![5, 4, 3, 2, 1];
    let _ = create_iterator(&input);
    assert_eq!(input, vec![5, 4, 3, 2, 1]);
}

#[test]
fn selection_on_three_values() {
    let steps = create_iterator(&keys(&[3.0, 1.0, 2.0]));
    let shown: Vec<(Vec<f64>, SortPointer)> =
        steps.iter().map(|(snapshot, pointer)| (values(snapshot), *pointer)).collect();
    assert_eq!(
        shown,
        vec![
            (vec![3.0, 1.0, 2.0], SortPointer(0, 1)),
            (vec![3.0, 1.0, 2.0], SortPointer(0, 2)),
            (vec![1.0, 3.0, 2.0], SortPointer(0, 1)),
            (vec![1.0, 3.0, 2.0], SortPointer(1, 2)),
            (vec![1.0, 2.0, 3.0], SortPointer(1, 2)),
        ]
    );
}

#[test]
fn selection_session_on_three_values() {
    let mut sort = SelectionSort::new(keys(&[3.0, 1.0, 2.0]));
    for _ in 0..5 {
        sort.step();
        assert!(!sort.is_sorted());
    }
    sort.step();
    assert!(sort.is_sorted());
    assert_eq!(values(sort.items()), vec![1.0, 2.0, 3.0]);
    assert_eq!(sort.get_current_step(), 5);
}

#[test]
fn selection_on_sorted_input_records_the_comparisons_only() {
    for n in 0..12usize {
        let input: Vec<u64> = (0..n as u64).collect();
        let steps = create_iterator(&input);
        assert_eq!(steps.len(), n * n.saturating_sub(1) / 2);
    }
}

#[test]
fn selection_on_reversed_input() {
    let steps = create_iterator(&vec![3, 2, 1]);
    assert_eq!(
        steps,
        vec![
            (vec![3, 2, 1], SortPointer(0, 1)),
            (vec![3, 2, 1], SortPointer(0, 2)),
            (vec![1, 2, 3], SortPointer(0, 2)),
            (vec![1, 2, 3], SortPointer(1, 2)),
        ]
    );
}

#[test]
fn selection_picks_the_first_of_equal_least_values() {
    let steps = create_iterator(&vec![2, 1, 1]);
    assert_eq!(steps[2], (vec![1, 2, 1], SortPointer(0, 1)));
    assert_eq!(steps.last().unwrap(), &(vec![1, 1, 2], SortPointer(1, 2)));
}

#[test]
fn selection_short_inputs_record_nothing() {
    assert!(create_iterator(&vec![]).is_empty());
    assert!(create_iterator(&vec![9]).is_empty());
}

#[test]
fn selection_session_has_its_name() {
    let sort = SelectionSort::new(vec![]);
    assert_eq!(sort.get_name(), "Selection Sort".to_string());
}
