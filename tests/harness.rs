use sortbench::cli::{parse_args, parse_count, Args, UsageError};
use sortbench::csv::{
    bool_str, decimal_text, file_exists, header, join_fields, lines_to_append, make_row, measured_row,
    millis_text, RunInfo,
};
use sortbench::dataset::{decode_int32_le, FormatError};
use sortbench::distribution::{distribution_from_name, infer_distribution};
use sortbench::measure::{
    is_sorted_non_decreasing, measure_rep, run_warmup, validation_outcome, Action, Schedule,
};

fn strings(v: &[&str]) -> Vec<String> {
    v.iter().map(|s| s.to_string()).collect()
}

fn dataset_bytes(values: &[i32]) -> Vec<u8> {
    let mut b = (values.len() as u32).to_le_bytes().to_vec();
    for v in values {
        b.extend_from_slice(&v.to_le_bytes());
    }
    b
}

fn sample_args(warmup: usize) -> Args {
    parse_args(&strings(&["--dataset", "data/uniform_n3_seed1.bin", "--warmup", &warmup.to_string()])).unwrap()
}

fn sample_info(warmup: usize) -> RunInfo {
    let args = sample_args(warmup);
    RunInfo::new(&args, "rust".to_string(), "rust/0.1.0".to_string(), "uniform".to_string(), 3)
}

fn is_millis(s: &str) -> bool {
    let parts: Vec<&str> = s.split('.').collect();
    parts.len() == 2
        && !parts[0].is_empty()
        && parts[0].chars().all(|c| c.is_ascii_digit())
        && parts[1].len() == 3
        && parts[1].chars().all(|c| c.is_ascii_digit())
}

#[test]
fn decode_returns_declared_values() {
    let b = dataset_bytes(&[7, -1, i32::MIN, i32::MAX, 0]);
    assert_eq!(decode_int32_le(&b).unwrap(), vec![7, -1, i32::MIN, i32::MAX, 0]);
}

#[test]
fn decode_empty_dataset() {
    assert_eq!(decode_int32_le(&[0, 0, 0, 0]).unwrap(), Vec::<i32>::new());
}

#[test]
fn decode_rejects_missing_header() {
    assert_eq!(decode_int32_le(&[]), Err(FormatError::MissingHeader));
    assert_eq!(decode_int32_le(&[1, 0, 0]), Err(FormatError::MissingHeader));
}

#[test]
fn decode_rejects_truncated_file() {
    let mut b = dataset_bytes(&[1, 2, 3]);
    b.pop();
    assert_eq!(decode_int32_le(&b), Err(FormatError::SizeMismatch { expected: 16, actual: 15 }));
}

#[test]
fn decode_rejects_padded_file() {
    let mut b = dataset_bytes(&[1, 2, 3]);
    b.push(0);
    assert_eq!(decode_int32_le(&b), Err(FormatError::SizeMismatch { expected: 16, actual: 17 }));
}

#[test]
fn decode_large_declared_count() {
    let b = vec![0xff, 0xff, 0xff, 0xff, 1, 2, 3, 4];
    assert_eq!(
        decode_int32_le(&b),
        Err(FormatError::SizeMismatch { expected: 4 + 4 * 0xffff_ffffu64, actual: 8 })
    );
}

#[test]
fn distribution_with_marker() {
    assert_eq!(infer_distribution("uniform_n1000_seed7.bin"), "uniform");
    assert_eq!(infer_distribution("../datasets/ints/random_n100000_seed1.bin"), "random");
}

#[test]
fn distribution_without_marker() {
    assert_eq!(infer_distribution("noext"), "noext");
    assert_eq!(infer_distribution("dir/plain.bin"), "plain.bin");
}

#[test]
fn distribution_without_file_name() {
    assert_eq!(infer_distribution(".."), "unknown");
    assert_eq!(infer_distribution(""), "unknown");
}

#[test]
fn distribution_from_name_first_marker() {
    assert_eq!(distribution_from_name("a_nb_nc"), "a");
    assert_eq!(distribution_from_name("_n5"), "");
    assert_eq!(distribution_from_name("few_unique_n10_seed2.bin"), "few_unique");
    assert_eq!(distribution_from_name("x_"), "x_");
}

#[test]
fn sorted_check() {
    assert!(is_sorted_non_decreasing(&[]));
    assert!(is_sorted_non_decreasing(&[5]));
    assert!(is_sorted_non_decreasing(&[1, 1, 2, 3]));
    assert!(!is_sorted_non_decreasing(&[1, 3, 2]));
}

#[test]
fn corrupted_sort_is_recorded_as_not_ok() {
    let corrupted = vec![2, 1, 3];
    assert!(!validation_outcome(&corrupted, true));
    assert!(validation_outcome(&corrupted, false));
    assert!(validation_outcome(&[1, 2, 3], true));
}

#[test]
fn measure_sorts_a_copy() {
    let values = vec![3, 1, 2, -5];
    let m = measure_rep(&values, true);
    assert_eq!(m.sorted, vec![-5, 1, 2, 3]);
    assert_eq!(values, vec![3, 1, 2, -5]);
    assert!(m.ok);
}

#[test]
fn warmup_counts() {
    assert_eq!(run_warmup(&vec![2, 1], 0), 0);
    assert_eq!(run_warmup(&vec![2, 1], 3), 3);
}

#[test]
fn schedule_order() {
    let mut s = Schedule::new(2, 3);
    let mut got = Vec::new();
    loop {
        let a = s.next_action();
        got.push(a);
        if a == Action::Finished {
            break;
        }
    }
    assert_eq!(
        got,
        vec![
            Action::WarmupSort,
            Action::WarmupSort,
            Action::MeasuredSort(0),
            Action::MeasuredSort(1),
            Action::MeasuredSort(2),
            Action::Finished
        ]
    );
    assert_eq!(s.next_action(), Action::Finished);
}

#[test]
fn schedule_zero_warmup_single_rep() {
    let mut s = Schedule::new(0, 1);
    assert_eq!(s.next_action(), Action::MeasuredSort(0));
    assert_eq!(s.next_action(), Action::Finished);
}

#[test]
fn parse_defaults() {
    let a = parse_args(&strings(&["--dataset", "d.bin"])).unwrap();
    assert_eq!(a.dataset, "d.bin");
    assert_eq!(a.algo, "builtin");
    assert_eq!(a.warmup, 5);
    assert_eq!(a.reps, 30);
    assert_eq!(a.out, "results/raw.csv");
    assert!(a.validate);
}

#[test]
fn parse_all_flags() {
    let a = parse_args(&strings(&[
        "--dataset", "a.bin", "--algo", "builtin", "--warmup", "0", "--reps", "+7", "--out", "o/r.csv",
        "--no-validate", "--dataset", "b.bin",
    ]))
    .unwrap();
    assert_eq!(a.dataset, "b.bin");
    assert_eq!(a.warmup, 0);
    assert_eq!(a.reps, 7);
    assert_eq!(a.out, "o/r.csv");
    assert!(!a.validate);
}

#[test]
fn parse_errors() {
    assert_eq!(parse_args(&strings(&[])).err(), Some(UsageError::MissingDataset));
    assert_eq!(parse_args(&strings(&["--dataset"])).err(), Some(UsageError::MissingValue));
    assert_eq!(parse_args(&strings(&["--dataset", "d", "--bogus"])).err(), Some(UsageError::UnknownFlag(2)));
    assert_eq!(parse_args(&strings(&["--dataset", "d", "--reps", "x"])).err(), Some(UsageError::BadNumber));
    assert_eq!(parse_args(&strings(&["--dataset", "d", "--warmup", "-1"])).err(), Some(UsageError::BadNumber));
    assert_eq!(parse_args(&strings(&["--dataset", "d", "--reps", "0"])).err(), Some(UsageError::OutOfRange));
    assert_eq!(parse_args(&strings(&["--dataset", "d", "--warmup", "1000001"])).err(), Some(UsageError::OutOfRange));
    assert_eq!(parse_args(&strings(&["--dataset", "d", "--algo", "quick"])).err(), Some(UsageError::UnsupportedAlgo));
    assert!(parse_args(&strings(&["--dataset", "d", "--warmup", "1000000"])).is_ok());
}

#[test]
fn parse_count_values() {
    assert_eq!(parse_count("0"), Some(0));
    assert_eq!(parse_count("+42"), Some(42));
    assert_eq!(parse_count("007"), Some(7));
    assert_eq!(parse_count(&usize::MAX.to_string()), Some(usize::MAX));
    assert_eq!(parse_count("18446744073709551616"), None);
    assert_eq!(parse_count(""), None);
    assert_eq!(parse_count("+"), None);
    assert_eq!(parse_count("1a"), None);
    assert_eq!(parse_count("-3"), None);
}

#[test]
fn number_texts() {
    assert_eq!(decimal_text(0), "0");
    assert_eq!(decimal_text(1234567890), "1234567890");
    assert_eq!(millis_text(0), "0.000");
    assert_eq!(millis_text(1_234_567), "1.235");
    assert_eq!(millis_text(1_234_499), "1.234");
    assert_eq!(millis_text(12_000_000_000), "12000.000");
    assert_eq!(bool_str(true), "true");
    assert_eq!(bool_str(false), "false");
}

#[test]
fn header_and_join() {
    assert_eq!(
        join_fields(&header()),
        "timestamp_iso,task,language,language_version,algo,dataset_file,distribution,n,warmup_runs,rep_idx,time_ms,ok"
    );
    assert_eq!(join_fields(&Vec::new()), "");
    assert_eq!(join_fields(&strings(&["a"])), "a");
}

#[test]
fn row_fields_in_order() {
    let info = sample_info(4);
    let row = make_row("2024-01-02T03:04:05", &info, 9, 2_500_000, false);
    assert_eq!(
        join_fields(&row),
        "2024-01-02T03:04:05,sort,rust,rust/0.1.0,builtin,data/uniform_n3_seed1.bin,uniform,3,4,9,2.500,false"
    );
}

#[test]
fn measured_row_has_timestamp() {
    let info = sample_info(0);
    let row = measured_row(&info, 0, 1000, true);
    assert_eq!(row.len(), 12);
    assert_eq!(row[0].len(), 19);
    assert_eq!(row[1], "sort");
    assert_eq!(row[10], "0.001");
}

#[test]
fn append_writes_header_only_for_new_log() {
    let row = strings(&["a", "b"]);
    let new_log = lines_to_append(false, &row);
    assert_eq!(new_log.len(), 2);
    assert!(new_log[0].starts_with("timestamp_iso,task"));
    assert_eq!(new_log[1], "a,b");
    assert_eq!(lines_to_append(true, &row), vec!["a,b".to_string()]);
}

#[test]
fn two_runs_keep_one_header() {
    let mut log: Option<Vec<String>> = None;
    for run in 0..2 {
        for rep in 0..3 {
            let row = strings(&[&run.to_string(), &rep.to_string()]);
            let lines = lines_to_append(log.is_some(), &row);
            log.get_or_insert_with(Vec::new).extend(lines);
        }
    }
    let log = log.unwrap();
    assert_eq!(log.len(), 7);
    assert_eq!(log.iter().filter(|l| l.starts_with("timestamp_iso")).count(), 1);
    assert_eq!(&log[1..], &strings(&["0,0", "0,1", "0,2", "1,0", "1,1", "1,2"])[..]);
}

#[test]
fn missing_file_does_not_exist() {
    assert!(!file_exists("no/such/dir/results.csv"));
    assert!(file_exists("."));
}

#[test]
fn end_to_end_three_values() {
    let bytes = vec![3, 0, 0, 0, 3, 0, 0, 0, 1, 0, 0, 0, 2, 0, 0, 0];
    let values = decode_int32_le(&bytes).unwrap();
    assert_eq!(values, vec![3, 1, 2]);
    let args = parse_args(&strings(&[
        "--dataset", "tiny_n3_seed0.bin", "--warmup", "0", "--reps", "1", "--no-validate",
    ]))
    .unwrap();
    assert_eq!(run_warmup(&values, args.warmup), 0);
    let mut schedule = Schedule::new(args.warmup, args.reps);
    assert_eq!(schedule.next_action(), Action::MeasuredSort(0));
    let m = measure_rep(&values, args.validate);
    assert_eq!(m.sorted, vec![1, 2, 3]);
    let info = RunInfo::new(&args, "rust".to_string(), "rust/0.1.0".to_string(), infer_distribution(&args.dataset), values.len());
    let row = measured_row(&info, 0, m.nanos, m.ok);
    assert_eq!(row[6], "tiny");
    assert_eq!(row[7], "3");
    assert_eq!(row[8], "0");
    assert_eq!(row[9], "0");
    assert!(is_millis(&row[10]));
    assert_eq!(row[11], "true");
    assert_eq!(schedule.next_action(), Action::Finished);
}
