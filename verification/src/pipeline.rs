//! The steps of an analysis run that need no measurement: loading and
//! splitting the dataset before the classifiers run, and putting the result
//! together after them.

use crate::accuracy::{accuracy_of, calculate_accuracy};
use crate::config::AnalysisConfig;
use crate::dataset::{are_records_of, csv_records, parse_dataset, rows_complete, Record};
use crate::error::ErrorKind;
use crate::label::{label_name, name_of};
use crate::results::PredictionResult;
use crate::split::{arrange_split, is_split_of, TrainTestSplit};
use vstd::prelude::*;
use vstd::string::StringExecFns;

verus! {

/// A loaded dataset and its train/test partition.
#[derive(Debug)]
pub struct Prepared {
    /// The rows of the dataset in file order.
    pub records: Vec<Record>,
    /// Which rows train and which test.
    pub split: TrainTestSplit,
}

/// Loads the dataset from the bytes of its file and partitions its rows as
/// `config` asks. Fails with `Parse` when the text is not well-formed or a
/// row has fewer than six fields, and on no other input.
pub fn prepare(data: &[u8], config: &AnalysisConfig) -> (r: Result<Prepared, ErrorKind>)
    ensures
        match csv_records(data@) {
            Some(rows) => if rows_complete(rows) {
                &&& r is Ok
                &&& are_records_of(rows, r->Ok_0.records@)
                &&& is_split_of(r->Ok_0.split, rows.len(), config.ratio, config.shuffle)
            } else {
                r is Err && r->Err_0 == ErrorKind::Parse
            },
            None => r is Err && r->Err_0 == ErrorKind::Parse,
        },
{
    match parse_dataset(data) {
        Ok(records) => {
            let split = arrange_split(records.len(), &config.ratio, config.shuffle);
            Ok(Prepared { records, split })
        },
        Err(_) => Err(ErrorKind::Parse),
    }
}

/// File name of the plot inside the output directory.
pub open spec fn plot_file_name() -> Seq<char> {
    seq!['/', 's', 'v', 'm', '_', 'n', 'e', 'i', 'g', 'h', 'b', 'o', 'r', 's', '.', 'p', 'n', 'g']
}

/// File name of the stored model inside the output directory.
pub open spec fn model_file_name() -> Seq<char> {
    seq!['/', 't', 'r', 'a', 'i', 'n', 'e', 'd', '_', 'm', 'o', 'd', 'e', 'l', '.', 'b', 'i', 'n']
}

/// Path of the plot for a run that writes to `output_dir`.
pub fn plot_file_path(output_dir: &str) -> (path: String)
    ensures
        path@ == output_dir@ + plot_file_name(),
{
    proof {
        reveal_strlit("/svm_neighbors.png");
        assert("/svm_neighbors.png"@ =~= plot_file_name());
    }
    String::from_str(output_dir).concat("/svm_neighbors.png")
}

/// Path of the stored model for a run that writes to `output_dir`.
pub fn model_file_path(output_dir: &str) -> (path: String)
    ensures
        path@ == output_dir@ + model_file_name(),
{
    proof {
        reveal_strlit("/trained_model.bin");
        assert("/trained_model.bin"@ =~= model_file_name());
    }
    String::from_str(output_dir).concat("/trained_model.bin")
}

/// Puts the outcome of a run together: both accuracies on the test
/// partition, the names of the categories predicted for the manual sample,
/// and the two output paths.
///
/// Fails with `Contract` when a classifier did not give one prediction per
/// test label.
pub fn summarize(
    test_labels: &Vec<usize>,
    svm_predictions: &Vec<usize>,
    knn_predictions: &Vec<usize>,
    svm_manual: usize,
    knn_manual: usize,
    output_dir: &str,
) -> (r: Result<PredictionResult, ErrorKind>)
    ensures
        r is Ok <==> svm_predictions.len() == test_labels.len() && knn_predictions.len()
            == test_labels.len(),
        r matches Err(kind) ==> kind == ErrorKind::Contract,
        r matches Ok(result) ==> {
            &&& result.svm_accuracy == accuracy_of(svm_predictions@, test_labels@)
            &&& result.knn_accuracy == accuracy_of(knn_predictions@, test_labels@)
            &&& result.svm_prediction@ == name_of(svm_manual)
            &&& result.knn_prediction@ == name_of(knn_manual)
            &&& result.plot_path@ == output_dir@ + plot_file_name()
            &&& result.model_path@ == output_dir@ + model_file_name()
        },
{
    let svm_accuracy = match calculate_accuracy(svm_predictions, test_labels) {
        Ok(accuracy) => accuracy,
        Err(_) => {
            return Err(ErrorKind::Contract);
        },
    };
    let knn_accuracy = match calculate_accuracy(knn_predictions, test_labels) {
        Ok(accuracy) => accuracy,
        Err(_) => {
            return Err(ErrorKind::Contract);
        },
    };
    Ok(
        PredictionResult {
            svm_accuracy,
            knn_accuracy,
            svm_prediction: label_name(svm_manual),
            knn_prediction: label_name(knn_manual),
            plot_path: plot_file_path(output_dir),
            model_path: model_file_path(output_dir),
        },
    )
}

} // verus!
