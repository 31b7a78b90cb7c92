use which_sort::sort::bubble::BubbleSort;
use which_sort::sort::insertion::InsertionSort;
use which_sort::sort::playback::{record, Playback};
use which_sort::sort::selection::SelectionSort;
use which_sort::sort::{exchange, Algorithm, Sort, SortPointer};

fn sessions(input: &[u64]) -> Vec<Box<dyn Sort>> {
    vec![
        Box::new(BubbleSort::new(input.to_vec())),
        Box::new(InsertionSort::new(input.to_vec())),
        Box::new(SelectionSort::new(input.to_vec())),
    ]
}

fn in_order(items: &[u64]) -> bool {
    items.windows(2).all(|w| w[0] <= w[1])
}

fn scrambled(n: u64) -> Vec<u64> {
    (0..n).map(|k| (k * 7919 + 13) % 101).collect()
}

#[test]
fn stepping_to_completion_sorts() {
    for n in 0..20u64 {
        let input = scrambled(n);
        let mut expected = input.clone();
        expected.sort();
        for mut sort in sessions(&input) {
            let mut calls = 0;
            while !sort.is_sorted() {
                sort.step();
                calls += 1;
                assert!(calls <= 1000);
            }
            assert!(in_order(sort.items()));
            assert_eq!(sort.items(), &expected);
        }
    }
}

#[test]
fn completion_is_noted_one_call_after_the_last_step() {
    let mut sort = BubbleSort::new(vec![2, 1, 3]);
    sort.activate_sort();
    for _ in 0..3 {
        sort.step();
    }
    assert_eq!(sort.get_current_step(), 3);
    assert!(!sort.is_sorted());
    assert!(sort.is_active());
    sort.step();
    assert!(sort.is_sorted());
    assert!(!sort.is_active());
    assert_eq!(sort.get_current_step(), 3);
}

#[test]
fn steps_past_the_end_change_nothing() {
    for mut sort in sessions(&[5, 3, 4, 1, 2]) {
        while !sort.is_sorted() {
            sort.step();
        }
        let items = sort.items().clone();
        let pointer = *sort.get_pointer();
        let count = sort.get_current_step();
        for _ in 0..10 {
            let (shown, highlighted) = sort.step();
            assert_eq!(shown, &items);
            assert_eq!(*highlighted, pointer);
            assert!(sort.is_sorted());
            assert!(!sort.is_active());
            assert_eq!(sort.items(), &items);
            assert_eq!(*sort.get_pointer(), pointer);
            assert_eq!(sort.get_current_step(), count);
        }
    }
}

#[test]
fn reset_starts_over_on_data_of_another_length() {
    for mut sort in sessions(&[5, 3, 4, 1, 2]) {
        sort.activate_sort();
        sort.step();
        sort.step();
        assert_eq!(sort.get_current_step(), 2);
        sort.reset(vec![9, 8, 7]);
        assert_eq!(sort.get_current_step(), 0);
        assert!(!sort.is_sorted());
        assert!(!sort.is_active());
        assert_eq!(sort.items(), &vec![9, 8, 7]);
        assert_eq!(*sort.get_pointer(), SortPointer(0, 1));
        while !sort.is_sorted() {
            sort.step();
        }
        assert_eq!(sort.items(), &vec![7, 8, 9]);
    }
}

#[test]
fn reset_keeps_the_algorithm() {
    let mut sort = InsertionSort::new(vec![2, 1]);
    sort.reset(vec![1, 2, 3]);
    assert_eq!(sort.get_name(), "Insertion Sort".to_string());
    sort.step();
    assert!(sort.is_sorted());
    assert_eq!(sort.get_current_step(), 0);
}

#[test]
fn reset_on_short_data_completes_at_the_first_step() {
    for data in [vec![], vec![4]] {
        for mut sort in sessions(&[3, 2, 1]) {
            sort.step();
            sort.reset(data.clone());
            assert_eq!(sort.get_current_step(), 0);
            assert!(!sort.is_sorted());
            sort.step();
            assert!(sort.is_sorted());
            assert_eq!(sort.items(), &data);
            assert_eq!(sort.get_current_step(), 0);
        }
    }
}

#[test]
fn activity_is_switched_without_losing_the_place() {
    for mut sort in sessions(&[3, 2, 1]) {
        assert!(!sort.is_active());
        sort.activate_sort();
        assert!(sort.is_active());
        sort.step();
        sort.deactivate_sort();
        assert!(!sort.is_active());
        assert_eq!(sort.get_current_step(), 1);
        sort.toggle_sort();
        assert!(sort.is_active());
        sort.toggle_sort();
        assert!(!sort.is_active());
        assert_eq!(sort.get_current_step(), 1);
    }
}

#[test]
fn every_step_shows_the_same_values_and_valid_positions() {
    let input = scrambled(15);
    let mut expected = input.clone();
    expected.sort();
    for algorithm in [Algorithm::Bubble, Algorithm::Insertion, Algorithm::Selection] {
        for (snapshot, pointer) in record(algorithm, &input) {
            assert_eq!(snapshot.len(), input.len());
            let mut held = snapshot.clone();
            held.sort();
            assert_eq!(held, expected);
            assert!(pointer.0 < input.len());
            assert!(pointer.1 < input.len());
            assert_ne!(pointer.0, pointer.1);
        }
    }
}

#[test]
fn playback_runs_the_algorithm_it_is_given() {
    let mut playback = Playback::new(Algorithm::Selection, vec![3, 1, 2]);
    assert_eq!(playback.algorithm(), Algorithm::Selection);
    assert_eq!(playback.get_name(), "Selection Sort".to_string());
    assert_eq!(playback.items(), &vec![3, 1, 2]);
    playback.set_active(true);
    assert!(playback.is_active());
    for _ in 0..6 {
        playback.step();
    }
    assert!(playback.is_sorted());
    assert!(!playback.is_active());
    assert_eq!(playback.get_current_step(), 5);
    assert_eq!(*playback.get_pointer(), SortPointer(1, 2));
    playback.reset(vec![2, 1]);
    assert_eq!(playback.algorithm(), Algorithm::Selection);
    assert_eq!(playback.get_current_step(), 0);
    assert_eq!(playback.items(), &vec![2, 1]);
}

#[test]
fn exchange_swaps_two_positions() {
    let mut items = vec![1, 2, 3];
    exchange(&mut items, 0, 2);
    assert_eq!(items, vec![3, 2, 1]);
    exchange(&mut items, 1, 1);
    assert_eq!(items, vec![3, 2, 1]);
}
