use airquality::config::AnalysisConfig;
use airquality::dataset::{load_rows, parse_dataset};
use airquality::error::ErrorKind;
use airquality::label::{label_from_text, label_name};
use airquality::pipeline::prepare;
use airquality::text::{blank, trim};

fn row(fields: &[&str]) -> Vec<String> {
    fields.iter().map(|f| f.to_string()).collect()
}

#[test]
fn trim_removes_blanks_at_both_ends() {
    assert_eq!(trim("  12.5\t"), "12.5");
    assert_eq!(trim("TIDAK SEHAT \r\n"), "TIDAK SEHAT");
    assert_eq!(trim("\u{3000}a b\u{a0}"), "a b");
    assert_eq!(trim("abc"), "abc");
}

#[test]
fn trim_of_blank_text_is_empty() {
    assert_eq!(trim(""), "");
    assert_eq!(trim(" \t\n"), "");
}

#[test]
fn trim_agrees_with_the_standard_library() {
    for text in ["", " ", " a", "a ", " a b ", "\u{2003}x\u{2028}", "\u{200b}x", "é ", " 1e-3\u{85}"] {
        assert_eq!(trim(text), text.trim());
    }
}

#[test]
fn blank_agrees_with_the_standard_library() {
    for code in 0u32..=0x10ffff {
        if let Some(c) = char::from_u32(code) {
            assert_eq!(blank(c), c.is_whitespace());
        }
    }
}

#[test]
fn labels_follow_the_vocabulary() {
    assert_eq!(label_from_text("BAIK"), 0);
    assert_eq!(label_from_text("SEDANG"), 1);
    assert_eq!(label_from_text("TIDAK SEHAT"), 2);
    assert_eq!(label_from_text("  SEDANG "), 1);
}

#[test]
fn unknown_labels_fall_back_to_zero() {
    assert_eq!(label_from_text(""), 0);
    assert_eq!(label_from_text("sedang"), 0);
    assert_eq!(label_from_text("TIDAK  SEHAT"), 0);
    assert_eq!(label_from_text("SANGAT TIDAK SEHAT"), 0);
}

#[test]
fn label_names_cover_every_label() {
    assert_eq!(label_name(0), "BAIK");
    assert_eq!(label_name(1), "SEDANG");
    assert_eq!(label_name(2), "TIDAK SEHAT");
    assert_eq!(label_name(3), "Unknown");
    assert_eq!(label_name(usize::MAX), "Unknown");
}

#[test]
fn label_names_read_back() {
    for label in 0..3 {
        assert_eq!(label_from_text(&label_name(label)), label);
    }
}

#[test]
fn load_rows_trims_and_maps() {
    let rows = vec![row(&[" 38", "29 ", "55", "31", "13", " SEDANG"]), row(&["1", "2", "3", "4", "5", "BAIK"])];
    let records = load_rows(&rows).unwrap();
    assert_eq!(records.len(), 2);
    assert_eq!(records[0].readings, vec!["38", "29", "55", "31", "13"]);
    assert_eq!(records[0].label, 1);
    assert_eq!(records[1].readings, vec!["1", "2", "3", "4", "5"]);
    assert_eq!(records[1].label, 0);
}

#[test]
fn load_rows_ignores_extra_fields() {
    let records = load_rows(&vec![row(&["1", "2", "3", "4", "5", "TIDAK SEHAT", "x", "y"])]).unwrap();
    assert_eq!(records[0].readings.len(), 5);
    assert_eq!(records[0].label, 2);
}

#[test]
fn load_rows_rejects_a_short_row() {
    let rows = vec![row(&["1", "2", "3", "4", "5", "BAIK"]), row(&["1", "2", "3", "4", "5"])];
    assert_eq!(load_rows(&rows).unwrap_err(), ErrorKind::Parse);
}

#[test]
fn load_rows_of_nothing_is_empty() {
    assert!(load_rows(&vec![]).unwrap().is_empty());
}

#[test]
fn unparseable_reading_does_not_stop_loading() {
    let data = b"pm10,so2,co,o3,no2,category\n38,N/A,55,31,13,SEDANG\n";
    let records = parse_dataset(data).unwrap();
    assert_eq!(records.len(), 1);
    assert_eq!(records[0].readings[1], "N/A");
    assert_eq!(records[0].readings[1].parse::<f64>().unwrap_or(0.0), 0.0);
    assert_eq!(records[0].readings[0].parse::<f64>().unwrap_or(0.0), 38.0);
    assert_eq!(records[0].label, 1);
}

#[test]
fn parse_dataset_skips_the_header() {
    let data = b"pm10,so2,co,o3,no2,category\n1,2,3,4,5,BAIK\n6,7,8,9,10,TIDAK SEHAT\n";
    let records = parse_dataset(data).unwrap();
    assert_eq!(records.len(), 2);
    assert_eq!(records[0].readings, vec!["1", "2", "3", "4", "5"]);
    assert_eq!(records[1].readings, vec!["6", "7", "8", "9", "10"]);
    assert_eq!(records[1].label, 2);
}

#[test]
fn parse_dataset_reads_quoted_fields() {
    let data = b"a,b,c,d,e,f\n\"1\",2,3,4,5,\" SEDANG \"\n";
    let records = parse_dataset(data).unwrap();
    assert_eq!(records[0].readings[0], "1");
    assert_eq!(records[0].label, 1);
}

#[test]
fn parse_dataset_with_only_a_header_is_empty() {
    assert!(parse_dataset(b"pm10,so2,co,o3,no2,category\n").unwrap().is_empty());
    assert!(parse_dataset(b"").unwrap().is_empty());
}

#[test]
fn parse_dataset_rejects_rows_of_unequal_width() {
    let data = b"pm10,so2,co,o3,no2,category\n1,2,3,4,5,BAIK\n1,2,3\n";
    assert_eq!(parse_dataset(data).unwrap_err(), ErrorKind::Parse);
}

#[test]
fn parse_dataset_rejects_narrow_files() {
    let data = b"pm10,so2,category\n1,2,BAIK\n";
    assert_eq!(parse_dataset(data).unwrap_err(), ErrorKind::Parse);
}

#[test]
fn parse_dataset_rejects_invalid_text() {
    let data = b"pm10,so2,co,o3,no2,category\n1,2,3,4,5,\xff\xfe\n";
    assert_eq!(parse_dataset(data).unwrap_err(), ErrorKind::Parse);
}

#[test]
fn prepare_loads_and_splits() {
    let mut text = String::from("pm10,so2,co,o3,no2,category\n");
    for i in 0..10 {
        text.push_str(&format!("{},1,2,3,4,BAIK\n", i));
    }
    let mut config = AnalysisConfig::default();
    config.shuffle = false;
    let prepared = prepare(text.as_bytes(), &config).unwrap();
    assert_eq!(prepared.records.len(), 10);
    assert_eq!(prepared.split.train, vec![0, 1, 2, 3, 4, 5, 6, 7]);
    assert_eq!(prepared.split.test, vec![8, 9]);
    config.shuffle = true;
    let shuffled = prepare(text.as_bytes(), &config).unwrap();
    assert_eq!(shuffled.split.train.len(), 8);
    assert_eq!(shuffled.split.test.len(), 2);
}

#[test]
fn prepare_rejects_a_broken_file() {
    let config = AnalysisConfig::default();
    assert_eq!(prepare(b"a,b\n1,2\n", &config).unwrap_err(), ErrorKind::Parse);
}
