use rand::distributions::Standard;
use rand::Rng;
use which_sort::sort::insertion::{create_iterator, InsertionSort};
use which_sort::sort::{Sort, SortPointer};

fn generate_random_data(size: usize) -> Vec<f64> {
    rand::thread_rng()
        .sample_iter::<f64, Standard>(Standard)
        .take(size)
        .map(|x| x * 100.0)
        .collect()
}

// Non-negative floats order as their bit patterns do.
fn keys(data: &[f64]) -> Vec<u64> {
    data.iter().map(|x| x.to_bits()).collect()
}

fn values(keys: &[u64]) -> Vec<f64> {
    keys.iter().map(|k| f64::from_bits(*k)).collect()
}

fn is_sorted(data: &Vec<f64>) -> bool {
    data.windows(2).all(|w| w[0] <= w[1])
}

#[test]
fn insertion_test_final_sort() {
    let items = generate_random_data(100);
    let result = create_iterator(&keys(&items.clone())).into_iter().last();
    let (data, _) = result.unwrap();
    let sorted = is_sorted(&values(&data));
    assert!(sorted);
}

#[test]
fn insertion_leaves_the_input_alone() {
    let input = vec![5, 4, 3, 2, 1];
    let _ = create_iterator(&input);
    assert_eq!(input, vec![5, 4, 3, 2, 1]);
}

#[test]
fn insertion_records_every_exchange() {
    let steps = create_iterator(&vec![3, 1, 2]);
    assert_eq!(
        steps,
        vec![
            (vec![1, 3, 2], SortPointer(1, 0)),
            (vec![1, 2, 3], SortPointer(2, 1)),
        ]
    );
}

#[test]
fn insertion_on_reversed_input_records_all_pairs() {
    let steps = create_iterator(&vec![4, 3, 2, 1]);
    assert_eq!(steps.len(), 6);
    assert_eq!(steps[0], (vec![3, 4, 2, 1], SortPointer(1, 0)));
    assert_eq!(steps[1], (vec![3, 2, 4, 1], SortPointer(2, 1)));
    assert_eq!(steps[2], (vec![2, 3, 4, 1], SortPointer(2, 0)));
    assert_eq!(steps[3], (vec![2, 3, 1, 4], SortPointer(3, 2)));
    assert_eq!(steps[4], (vec![2, 1, 3, 4], SortPointer(3, 1)));
    assert_eq!(steps[5], (vec![1, 2, 3, 4], SortPointer(3, 0)));
}

#[test]
fn insertion_on_sorted_input_records_nothing() {
    for n in 0..12u64 {
        let input: Vec<u64> = (0..n).collect();
        assert!(create_iterator(&input).is_empty());
    }
    assert!(create_iterator(&vec![1, 1, 2, 2, 3]).is_empty());
}

#[test]
fn insertion_ties_are_not_exchanged() {
    let steps = create_iterator(&vec![2, 1, 1]);
    assert_eq!(
        steps,
        vec![
            (vec![1, 2, 1], SortPointer(1, 0)),
            (vec![1, 1, 2], SortPointer(2, 1)),
        ]
    );
}

#[test]
fn insertion_session_on_sorted_input_completes_at_the_first_step() {
    let mut sort = InsertionSort::new(vec![1, 2, 3, 4, 5]);
    assert!(!sort.is_sorted());
    sort.activate_sort();
    {
        let (items, pointer) = sort.step();
        assert_eq!(items, &vec![1, 2, 3, 4, 5]);
        assert_eq!(*pointer, SortPointer(0, 1));
    }
    assert!(sort.is_sorted());
    assert!(!sort.is_active());
    assert_eq!(sort.get_current_step(), 0);
}

#[test]
fn insertion_session_has_its_name() {
    let sort = InsertionSort::new(vec![]);
    assert_eq!(sort.get_name(), "Insertion Sort".to_string());
}
