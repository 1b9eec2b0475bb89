use airquality::accuracy::{calculate_accuracy, Accuracy};
use airquality::error::ErrorKind;

#[test]
fn accuracy_counts_agreements() {
    let got = calculate_accuracy(&vec![0, 1, 2, 1], &vec![0, 2, 2, 1]);
    assert_eq!(got, Ok(Accuracy { numerator: 3, denominator: 4 }));
}

#[test]
fn accuracy_of_nothing_is_zero() {
    assert_eq!(calculate_accuracy(&vec![], &vec![]), Ok(Accuracy { numerator: 0, denominator: 1 }));
}

#[test]
fn accuracy_all_wrong_and_all_right() {
    assert_eq!(
        calculate_accuracy(&vec![1, 1], &vec![0, 0]),
        Ok(Accuracy { numerator: 0, denominator: 2 })
    );
    assert_eq!(
        calculate_accuracy(&vec![2, 0, 1], &vec![2, 0, 1]),
        Ok(Accuracy { numerator: 3, denominator: 3 })
    );
}

#[test]
fn accuracy_rejects_mismatched_lengths() {
    assert_eq!(calculate_accuracy(&vec![0, 1], &vec![0]), Err(ErrorKind::Contract));
    assert_eq!(calculate_accuracy(&vec![], &vec![0]), Err(ErrorKind::Contract));
}

#[test]
fn accuracy_is_the_same_after_a_common_permutation() {
    let predicted = vec![0, 1, 2, 1, 0, 2];
    let actual = vec![0, 2, 2, 1, 1, 2];
    let order = [4, 0, 5, 2, 1, 3];
    let moved_predicted: Vec<usize> = order.iter().map(|&i| predicted[i]).collect();
    let moved_actual: Vec<usize> = order.iter().map(|&i| actual[i]).collect();
    assert_eq!(
        calculate_accuracy(&moved_predicted, &moved_actual),
        calculate_accuracy(&predicted, &actual)
    );
    assert_eq!(
        calculate_accuracy(&predicted, &actual),
        Ok(Accuracy { numerator: 4, denominator: 6 })
    );
}
