//! The rows of the results log: their fields, their comma-joined text, and
//! what appending a row does to the log's lines.

use vstd::prelude::*;
use crate::cli::Args;

verus! {

/// The decimal digit `d` as a character.
pub open spec fn digit_char(d: int) -> char {
    (d + 48) as char
}

/// The decimal text of `n`, without leading zeros.
pub open spec fn decimal(n: nat) -> Seq<char>
    decreases n,
{
    if n < 10 {
        seq![digit_char(n as int)]
    } else {
        decimal(n / 10).push(digit_char((n % 10) as int))
    }
}

/// `nanos` nanoseconds in whole microseconds, halves rounded up.
pub open spec fn rounded_micros(nanos: nat) -> nat {
    (nanos + 500) / 1000
}

/// A duration in milliseconds with exactly three decimals.
pub open spec fn millis_text_of(nanos: nat) -> Seq<char> {
    let us = rounded_micros(nanos);
    let f = (us % 1000) as int;
    decimal(us / 1000) + seq!['.', digit_char(f / 100), digit_char((f / 10) % 10), digit_char(f % 10)]
}

/// `true` or `false`.
pub open spec fn bool_text(b: bool) -> Seq<char> {
    if b {
        "true"@
    } else {
        "false"@
    }
}

/// The texts of a sequence of strings.
pub open spec fn texts(v: Seq<String>) -> Seq<Seq<char>> {
    v.map_values(|s: String| s@)
}

/// Fields joined by single commas, with no quoting: a field that holds a
/// comma itself shifts the columns of its line, so callers keep commas out
/// of paths and labels.
pub open spec fn joined(fields: Seq<Seq<char>>) -> Seq<char>
    decreases fields.len(),
{
    if fields.len() == 0 {
        Seq::empty()
    } else if fields.len() == 1 {
        fields[0]
    } else {
        joined(fields.drop_last()) + seq![','] + fields.last()
    }
}

/// The twelve column names of the log.
pub open spec fn header_fields() -> Seq<Seq<char>> {
    seq![
        "timestamp_iso"@,
        "task"@,
        "language"@,
        "language_version"@,
        "algo"@,
        "dataset_file"@,
        "distribution"@,
        "n"@,
        "warmup_runs"@,
        "rep_idx"@,
        "time_ms"@,
        "ok"@,
    ]
}

/// The first line of a new log.
pub open spec fn header_line() -> Seq<char> {
    joined(header_fields())
}

/// What a run states in every one of its rows.
pub struct RunInfo {
    pub language: String,
    pub language_version: String,
    pub algo: String,
    pub dataset_file: String,
    pub distribution: String,
    pub n: usize,
    pub warmup: usize,
}

impl RunInfo {
    /// What every row of a run of `args` over `n` values states.
    pub fn new(args: &Args, language: String, language_version: String, distribution: String, n: usize) -> (r: RunInfo)
        ensures
            r.language == language,
            r.language_version == language_version,
            r.algo == args.algo,
            r.dataset_file == args.dataset,
            r.distribution == distribution,
            r.n == n,
            r.warmup == args.warmup,
    {
        RunInfo {
            language,
            language_version,
            algo: args.algo.clone(),
            dataset_file: args.dataset.clone(),
            distribution,
            n,
            warmup: args.warmup,
        }
    }
}

/// The fields of the row of repetition `rep`, stamped `ts`, whose sort took
/// `nanos` nanoseconds and whose validation outcome is `ok`.
pub open spec fn row_fields(ts: Seq<char>, info: RunInfo, rep: nat, nanos: nat, ok: bool) -> Seq<Seq<char>> {
    seq![
        ts,
        "sort"@,
        info.language@,
        info.language_version@,
        info.algo@,
        info.dataset_file@,
        info.distribution@,
        decimal(info.n as nat),
        decimal(info.warmup as nat),
        decimal(rep),
        millis_text_of(nanos),
        bool_text(ok),
    ]
}

/// The lines that appending a row line writes to a log that exists or not:
/// the header first when the log is new.
pub open spec fn new_lines(exists: bool, line: Seq<char>) -> Seq<Seq<char>> {
    if exists {
        seq![line]
    } else {
        seq![header_line(), line]
    }
}

/// The lines of a log after appending one row line; `None` is a log that
/// does not exist yet.
pub open spec fn append_line(log: Option<Seq<Seq<char>>>, line: Seq<char>) -> Seq<Seq<char>> {
    match log {
        Some(lines) => lines + new_lines(true, line),
        None => new_lines(false, line),
    }
}

/// The log after appending each of `lines` in turn.
pub open spec fn append_all(log: Option<Seq<Seq<char>>>, lines: Seq<Seq<char>>) -> Option<Seq<Seq<char>>>
    decreases lines.len(),
{
    if lines.len() == 0 {
        log
    } else {
        Some(append_line(append_all(log, lines.drop_last()), lines.last()))
    }
}

/// What a log holds before a row is appended: its lines, or the header
/// alone once it is created.
pub open spec fn base_lines(log: Option<Seq<Seq<char>>>) -> Seq<Seq<char>> {
    match log {
        Some(lines) => lines,
        None => seq![header_line()],
    }
}

/// Appending `R > 0` row lines leaves the earlier content untouched and adds
/// exactly those `R` lines in order, after one header line when the log did
/// not exist.
pub proof fn lemma_append_rows(log: Option<Seq<Seq<char>>>, lines: Seq<Seq<char>>)
    requires
        lines.len() > 0,
    ensures
        append_all(log, lines) == Some(base_lines(log) + lines),
    decreases lines.len(),
{
    if lines.len() == 1 {
        assert(lines.drop_last() =~= Seq::<Seq<char>>::empty());
        assert(append_all(log, lines.drop_last()) == log);
        assert(lines =~= seq![lines.last()]);
        assert(base_lines(log) + lines =~= append_line(log, lines.last()));
    } else {
        lemma_append_rows(log, lines.drop_last());
        assert(base_lines(log) + lines =~= (base_lines(log) + lines.drop_last()).push(lines.last()));
        assert(append_line(Some(base_lines(log) + lines.drop_last()), lines.last())
            =~= (base_lines(log) + lines.drop_last()) + seq![lines.last()]);
    }
}

/// Two runs against the same log: the header is written only if the log was
/// new, nothing earlier is lost, and the rows of both runs follow in the
/// order they were emitted. When no row line is the header line, a new log
/// holds the header exactly once, as its first line.
pub proof fn lemma_two_runs(log: Option<Seq<Seq<char>>>, first: Seq<Seq<char>>, second: Seq<Seq<char>>)
    requires
        first.len() > 0,
        second.len() > 0,
    ensures
        append_all(append_all(log, first), second) == Some(base_lines(log) + first + second),
        log is None ==> append_all(append_all(log, first), second) == Some(
            seq![header_line()] + first + second,
        ),
        log is None && (forall|i: int| 0 <= i < first.len() ==> #[trigger] first[i] != header_line())
            && (forall|i: int| 0 <= i < second.len() ==> #[trigger] second[i] != header_line()) ==> forall|i: int|
            0 < i < 1 + first.len() + second.len() ==> #[trigger] append_all(append_all(log, first), second)->Some_0[i]
                != header_line(),
{
    lemma_append_rows(log, first);
    lemma_append_rows(append_all(log, first), second);
    let all = seq![header_line()] + first + second;
    assert forall|i: int| 0 < i < 1 + first.len() + second.len() implies (all[i] == if i < 1 + first.len() {
        first[i - 1]
    } else {
        second[i - 1 - first.len()]
    }) by {}
}

proof fn lemma_joined_last(fields: Seq<Seq<char>>)
    requires
        fields.len() > 0,
        fields.last().len() > 0,
    ensures
        joined(fields).len() > 0,
        joined(fields).last() == fields.last().last(),
{
    if fields.len() > 1 {
        let j = joined(fields.drop_last()) + seq![','] + fields.last();
        assert(j.last() == fields.last().last());
    }
}

/// No row line is the header line: a row ends in `true` or `false`, the
/// header in `ok`.
pub proof fn lemma_row_is_not_header(ts: Seq<char>, info: RunInfo, rep: nat, nanos: nat, ok: bool)
    ensures
        joined(row_fields(ts, info, rep, nanos, ok)) != header_line(),
{
    reveal_strlit("ok");
    reveal_strlit("true");
    reveal_strlit("false");
    let row = row_fields(ts, info, rep, nanos, ok);
    lemma_joined_last(row);
    lemma_joined_last(header_fields());
}

fn digit_str(d: u128) -> (r: &'static str)
    requires
        d < 10,
    ensures
        r@ == seq![digit_char(d as int)],
{
    proof {
        reveal_strlit("0");
        reveal_strlit("1");
        reveal_strlit("2");
        reveal_strlit("3");
        reveal_strlit("4");
        reveal_strlit("5");
        reveal_strlit("6");
        reveal_strlit("7");
        reveal_strlit("8");
        reveal_strlit("9");
    }
    if d == 0 {
        "0"
    } else if d == 1 {
        "1"
    } else if d == 2 {
        "2"
    } else if d == 3 {
        "3"
    } else if d == 4 {
        "4"
    } else if d == 5 {
        "5"
    } else if d == 6 {
        "6"
    } else if d == 7 {
        "7"
    } else if d == 8 {
        "8"
    } else {
        "9"
    }
}

fn push_decimal(out: &mut String, n: u128)
    ensures
        final(out)@ == old(out)@ + decimal(n as nat),
    decreases n,
{
    if n >= 10 {
        push_decimal(out, n / 10);
        out.append(digit_str(n % 10));
        assert(final(out)@ =~= old(out)@ + decimal(n as nat));
    } else {
        out.append(digit_str(n));
    }
}

/// The decimal text of `n`.
pub fn decimal_text(n: u128) -> (r: String)
    ensures
        r@ == decimal(n as nat),
{
    let mut out = String::new();
    push_decimal(&mut out, n);
    assert(out@ =~= decimal(n as nat));
    out
}

/// A duration of `nanos` nanoseconds as milliseconds with three decimals
/// (microsecond resolution, halves rounded up).
pub fn millis_text(nanos: u128) -> (r: String)
    ensures
        r@ == millis_text_of(nanos as nat),
{
    let us: u128 = nanos / 1000 + if nanos % 1000 >= 500 {
        1
    } else {
        0
    };
    assert(us == rounded_micros(nanos as nat));
    let f = us % 1000;
    let mut out = String::new();
    push_decimal(&mut out, us / 1000);
    proof {
        reveal_strlit(".");
    }
    out.append(".");
    out.append(digit_str(f / 100));
    out.append(digit_str((f / 10) % 10));
    out.append(digit_str(f % 10));
    assert(out@ =~= millis_text_of(nanos as nat));
    out
}

/// `true` or `false`.
pub fn bool_str(b: bool) -> (r: String)
    ensures
        r@ == bool_text(b),
{
    if b {
        String::from_str("true")
    } else {
        String::from_str("false")
    }
}

/// The fields joined by single commas.
pub fn join_fields(fields: &Vec<String>) -> (r: String)
    ensures
        r@ == joined(texts(fields@)),
{
    let mut out = String::new();
    let mut i: usize = 0;
    while i < fields.len()
        invariant
            i <= fields@.len(),
            out@ == joined(texts(fields@).take(i as int)),
        decreases fields@.len() - i,
    {
        assert(texts(fields@).take(i + 1).drop_last() =~= texts(fields@).take(i as int));
        assert(texts(fields@)[i as int] == fields@[i as int]@);
        assert(texts(fields@).take(i + 1).last() == fields@[i as int]@);
        let ghost before = out@;
        if i > 0 {
            proof {
                reveal_strlit(",");
            }
            out.append(",");
            out.append(fields[i].as_str());
            assert(out@ =~= before + seq![','] + fields@[i as int]@);
        } else {
            out.append(fields[i].as_str());
            assert(out@ =~= fields@[i as int]@);
        }
        i = i + 1;
    }
    assert(texts(fields@).take(i as int) =~= texts(fields@));
    out
}

/// The twelve column names of the log.
pub fn header() -> (r: Vec<String>)
    ensures
        texts(r@) == header_fields(),
{
    let r = vec![
        String::from_str("timestamp_iso"),
        String::from_str("task"),
        String::from_str("language"),
        String::from_str("language_version"),
        String::from_str("algo"),
        String::from_str("dataset_file"),
        String::from_str("distribution"),
        String::from_str("n"),
        String::from_str("warmup_runs"),
        String::from_str("rep_idx"),
        String::from_str("time_ms"),
        String::from_str("ok"),
    ];
    assert(texts(r@) =~= header_fields());
    r
}

/// The row of repetition `rep` stamped `timestamp`.
pub fn make_row(timestamp: &str, info: &RunInfo, rep: usize, nanos: u128, ok: bool) -> (r: Vec<String>)
    ensures
        texts(r@) == row_fields(timestamp@, *info, rep as nat, nanos as nat, ok),
{
    let r = vec![
        String::from_str(timestamp),
        String::from_str("sort"),
        info.language.clone(),
        info.language_version.clone(),
        info.algo.clone(),
        info.dataset_file.clone(),
        info.distribution.clone(),
        decimal_text(info.n as u128),
        decimal_text(info.warmup as u128),
        decimal_text(rep as u128),
        millis_text(nanos),
        bool_str(ok),
    ];
    assert(texts(r@) =~= row_fields(timestamp@, *info, rep as nat, nanos as nat, ok));
    r
}

/// Relies on `chrono::Local::now` and `DateTime::format`: the local time now,
/// as `YYYY-MM-DDTHH:MM:SS`.
#[verifier::external_body]
fn now_iso_local() -> (r: String) {
    chrono::Local::now().format("%Y-%m-%dT%H:%M:%S").to_string()
}

/// The row of repetition `rep`, stamped with the local time now.
pub fn measured_row(info: &RunInfo, rep: usize, nanos: u128, ok: bool) -> (r: Vec<String>)
    ensures
        r@.len() == 12,
        texts(r@) == row_fields(texts(r@)[0], *info, rep as nat, nanos as nat, ok),
{
    let ts = now_iso_local();
    let r = make_row(ts.as_str(), info, rep, nanos, ok);
    assert(texts(r@).len() == r@.len());
    r
}

/// Relies on `std::path::Path::exists`: whether something is at `path` now.
#[verifier::external_body]
pub fn file_exists(path: &str) -> (r: bool) {
    std::path::Path::new(path).exists()
}

/// The lines to append to a log for one row: the header first when the log
/// does not exist, then the row's comma-joined text.
pub fn lines_to_append(exists: bool, row: &Vec<String>) -> (r: Vec<String>)
    ensures
        texts(r@) == new_lines(exists, joined(texts(row@))),
{
    let line = join_fields(row);
    let mut r: Vec<String> = Vec::new();
    if !exists {
        let h = header();
        r.push(join_fields(&h));
    }
    r.push(line);
    assert(texts(r@) =~= new_lines(exists, joined(texts(row@))));
    r
}

/// The lines to append to the log at `csv_path` for one row, as the log
/// stands now: with the header when it is absent, without it when present.
pub fn pending_lines(csv_path: &str, row: &Vec<String>) -> (r: Vec<String>)
    ensures
        texts(r@) == new_lines(true, joined(texts(row@))) || texts(r@) == new_lines(false, joined(texts(row@))),
{
    let exists = file_exists(csv_path);
    lines_to_append(exists, row)
}

} // verus!
