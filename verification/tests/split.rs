use airquality::config::AnalysisConfig;
use airquality::perm::identity_order;
use airquality::split::{arrange_split, random_order, row_order, split_order, Ratio};

fn sorted(mut rows: Vec<usize>) -> Vec<usize> {
    rows.sort();
    rows
}

#[test]
fn ratio_accepts_fractions_up_to_one() {
    assert!(Ratio::new(4, 5).is_some());
    assert!(Ratio::new(0, 1).is_some());
    assert!(Ratio::new(7, 7).is_some());
}

#[test]
fn ratio_rejects_what_is_no_share() {
    assert!(Ratio::new(1, 0).is_none());
    assert!(Ratio::new(0, 0).is_none());
    assert!(Ratio::new(6, 5).is_none());
}

#[test]
fn train_size_rounds_down() {
    let ratio = Ratio::new(4, 5).unwrap();
    assert_eq!(ratio.train_size(10), 8);
    assert_eq!(ratio.train_size(7), 5);
    assert_eq!(ratio.train_size(1), 0);
    assert_eq!(ratio.train_size(0), 0);
    assert_eq!(Ratio::new(1, 3).unwrap().train_size(10), 3);
    assert_eq!(Ratio::new(1, 1).unwrap().train_size(10), 10);
    assert_eq!(Ratio::new(0, 1).unwrap().train_size(10), 0);
}

#[test]
fn train_size_of_the_largest_dataset_does_not_overflow() {
    let ratio = Ratio::new(u32::MAX - 1, u32::MAX).unwrap();
    assert!(ratio.train_size(usize::MAX) < usize::MAX);
    assert_eq!(Ratio::new(1, 2).unwrap().train_size(usize::MAX), usize::MAX / 2);
}

#[test]
fn default_ratio_is_four_fifths() {
    assert_eq!(Ratio::default().train_size(100), 80);
    assert_eq!(Ratio::default().train_size(4), 3);
}

#[test]
fn identity_order_counts_up() {
    assert_eq!(identity_order(4), vec![0, 1, 2, 3]);
    assert_eq!(identity_order(0), Vec::<usize>::new());
}

#[test]
fn random_order_is_a_permutation() {
    for n in [0usize, 1, 2, 17, 100] {
        assert_eq!(sorted(random_order(n)), identity_order(n));
    }
}

#[test]
fn random_order_moves_rows() {
    assert_ne!(random_order(100), identity_order(100));
}

#[test]
fn row_order_unshuffled_is_the_identity() {
    assert_eq!(row_order(5, false), vec![0, 1, 2, 3, 4]);
    assert_eq!(sorted(row_order(5, true)), vec![0, 1, 2, 3, 4]);
}

#[test]
fn split_cuts_after_the_training_rows() {
    let split = split_order(&vec![3, 1, 4, 0, 2], &Ratio::default());
    assert_eq!(split.train, vec![3, 1, 4, 0]);
    assert_eq!(split.test, vec![2]);
}

#[test]
fn split_sizes_add_up() {
    for total in 0usize..40 {
        let split = arrange_split(total, &Ratio::default(), true);
        assert_eq!(split.train.len() + split.test.len(), total);
        assert_eq!(split.train.len(), total * 4 / 5);
        let mut all = split.train.clone();
        all.extend(split.test.iter().copied());
        assert_eq!(sorted(all), identity_order(total));
    }
}

#[test]
fn split_of_nothing_is_empty() {
    let split = arrange_split(0, &Ratio::default(), false);
    assert!(split.train.is_empty());
    assert!(split.test.is_empty());
}

#[test]
fn default_config_values() {
    let config = AnalysisConfig::default();
    assert_eq!(config.neighbours, 5);
    assert!(config.shuffle);
    assert!(!config.normalize_before_split);
    assert_eq!(config.ratio.train_size(10), 8);
}
