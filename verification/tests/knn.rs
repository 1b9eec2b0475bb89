use airquality::error::ErrorKind;
use airquality::knn::{knn_classify, predict_knn};
use airquality::order::nearest_order;
use airquality::vote::majority_label;

fn distance(a: &[f64], b: &[f64]) -> f64 {
    a.iter().zip(b.iter()).map(|(x, y)| (x - y).powi(2)).sum::<f64>().sqrt()
}

fn keys(train: &[Vec<f64>], query: &[f64]) -> Vec<u64> {
    train.iter().map(|point| distance(point, query).to_bits()).collect()
}

fn four_points() -> (Vec<Vec<f64>>, Vec<usize>) {
    (
        vec![
            vec![0.0, 0.0, 0.0, 0.0, 0.0],
            vec![10.0, 10.0, 10.0, 10.0, 10.0],
            vec![0.0, 0.0, 0.0, 0.0, 1.0],
            vec![10.0, 10.0, 10.0, 10.0, 9.0],
        ],
        vec![0, 1, 0, 1],
    )
}

#[test]
fn nearest_order_sorts_by_key() {
    assert_eq!(nearest_order(&vec![30, 10, 20]), vec![1, 2, 0]);
}

#[test]
fn nearest_order_keeps_training_order_on_ties() {
    assert_eq!(nearest_order(&vec![5, 1, 5, 1, 5]), vec![1, 3, 0, 2, 4]);
}

#[test]
fn nearest_order_of_nothing_is_empty() {
    assert_eq!(nearest_order(&vec![]), Vec::<usize>::new());
}

#[test]
fn nearest_order_handles_a_long_reversed_run() {
    let dist: Vec<u64> = (0..1000u64).rev().collect();
    let expected: Vec<usize> = (0..1000usize).rev().collect();
    assert_eq!(nearest_order(&dist), expected);
}

#[test]
fn majority_of_no_votes_is_zero() {
    assert_eq!(majority_label(&vec![]), 0);
}

#[test]
fn majority_picks_the_highest_count() {
    assert_eq!(majority_label(&vec![2, 1, 2, 0, 2]), 2);
}

#[test]
fn majority_tie_goes_to_the_label_met_first() {
    assert_eq!(majority_label(&vec![0, 1, 1, 0]), 0);
    assert_eq!(majority_label(&vec![1, 0, 0, 1]), 1);
    assert_eq!(majority_label(&vec![7, 3]), 7);
    assert_eq!(majority_label(&vec![4, 2, 9, 2, 9, 4]), 4);
}

#[test]
fn majority_ignores_early_votes_for_losing_labels() {
    assert_eq!(majority_label(&vec![5, 8, 8, 6, 6]), 8);
}

#[test]
fn majority_accepts_labels_outside_the_vocabulary() {
    assert_eq!(majority_label(&vec![usize::MAX, 4, usize::MAX]), usize::MAX);
}

#[test]
fn classify_votes_among_the_k_nearest() {
    let dist = vec![40, 10, 30, 20, 50];
    let labels = vec![0, 1, 2, 2, 0];
    assert_eq!(knn_classify(&dist, &labels, 1), Ok(1));
    assert_eq!(knn_classify(&dist, &labels, 2), Ok(1));
    assert_eq!(knn_classify(&dist, &labels, 3), Ok(2));
    assert_eq!(knn_classify(&dist, &labels, 5), Ok(2));
}

#[test]
fn classify_with_no_neighbours_gives_zero() {
    assert_eq!(knn_classify(&vec![3, 1], &vec![2, 2], 0), Ok(0));
}

#[test]
fn classify_rejects_too_many_neighbours() {
    assert_eq!(knn_classify(&vec![3, 1], &vec![2, 2], 3), Err(ErrorKind::Contract));
}

#[test]
fn classify_rejects_mismatched_lengths() {
    assert_eq!(knn_classify(&vec![3, 1, 4], &vec![2, 2], 1), Err(ErrorKind::Shape));
}

#[test]
fn query_on_a_training_point_gets_its_label() {
    let (train, labels) = four_points();
    for (j, point) in train.iter().enumerate() {
        let dist = keys(&train, point);
        assert_eq!(knn_classify(&dist, &labels, 1), Ok(labels[j]));
    }
}

#[test]
fn end_to_end_two_queries() {
    let (train, labels) = four_points();
    let queries = vec![vec![0.0, 0.0, 0.0, 0.0, 0.2], vec![9.0, 9.0, 9.0, 9.0, 9.0]];
    let distances: Vec<Vec<u64>> = queries.iter().map(|q| keys(&train, q)).collect();
    assert_eq!(predict_knn(&distances, &labels, 1), Ok(vec![0, 1]));
}

#[test]
fn predict_three_neighbours() {
    let (train, labels) = four_points();
    let queries = vec![vec![0.0, 0.0, 0.0, 0.0, 0.2], vec![9.0, 9.0, 9.0, 9.0, 9.0]];
    let distances: Vec<Vec<u64>> = queries.iter().map(|q| keys(&train, q)).collect();
    assert_eq!(predict_knn(&distances, &labels, 3), Ok(vec![0, 1]));
}

#[test]
fn predict_without_queries_is_empty() {
    assert_eq!(predict_knn(&vec![], &vec![0, 1], 1), Ok(vec![]));
}

#[test]
fn predict_rejects_too_many_neighbours() {
    assert_eq!(predict_knn(&vec![vec![1, 2]], &vec![0, 1], 3), Err(ErrorKind::Contract));
    assert_eq!(predict_knn(&vec![], &vec![0, 1], 3), Err(ErrorKind::Contract));
}

#[test]
fn predict_rejects_a_short_row() {
    assert_eq!(predict_knn(&vec![vec![1, 2], vec![1]], &vec![0, 1], 1), Err(ErrorKind::Shape));
}
