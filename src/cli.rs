//! Command-line resolution: flags to a validated configuration, or the
//! usage error that rejects them.

use vstd::prelude::*;
use crate::csv::texts;

verus! {

/// A validated configuration of one run.
pub struct Args {
    pub dataset: String,
    pub algo: String,
    pub warmup: usize,
    pub reps: usize,
    pub out: String,
    pub validate: bool,
}

/// Why the command line was rejected.
#[derive(Debug, Clone, Copy, PartialEq, Eq, Structural)]
pub enum UsageError {
    /// A flag that takes a value came last.
    MissingValue,
    /// The value of `--warmup` or `--reps` is not a count.
    BadNumber,
    /// The argument at this index is no known flag.
    UnknownFlag(usize),
    /// No `--dataset` was given.
    MissingDataset,
    /// `warmup` is over one million, or `reps` is zero.
    OutOfRange,
    /// `algo` is other than `builtin`.
    UnsupportedAlgo,
}

/// The settings gathered so far while reading the flags.
pub struct Draft {
    pub dataset: Option<Seq<char>>,
    pub algo: Seq<char>,
    pub warmup: nat,
    pub reps: nat,
    pub out: Seq<char>,
    pub validate: bool,
}

/// The largest accepted warmup count.
pub const MAX_WARMUP: usize = 1_000_000;

/// The settings before any flag is read.
pub open spec fn default_draft() -> Draft {
    Draft {
        dataset: None,
        algo: "builtin"@,
        warmup: 5,
        reps: 30,
        out: "results/raw.csv"@,
        validate: true,
    }
}

pub open spec fn is_digit(c: char) -> bool {
    '0' <= c <= '9'
}

pub open spec fn all_digits(s: Seq<char>) -> bool {
    forall|i: int| 0 <= i < s.len() ==> is_digit(#[trigger] s[i])
}

/// The value of a string of decimal digits.
pub open spec fn digits_value(s: Seq<char>) -> nat
    decreases s.len(),
{
    if s.len() == 0 {
        0
    } else {
        digits_value(s.drop_last()) * 10 + (s.last() as int - 48) as nat
    }
}

/// `s` without one leading `+`.
pub open spec fn unsigned_part(s: Seq<char>) -> Seq<char> {
    if s.len() > 0 && s[0] == '+' {
        s.drop_first()
    } else {
        s
    }
}

/// The count that `s` spells: an optional `+`, then at least one decimal
/// digit, with a value that fits a `usize`.
pub open spec fn count_value(s: Seq<char>) -> Option<nat> {
    let d = unsigned_part(s);
    if d.len() > 0 && all_digits(d) && digits_value(d) <= usize::MAX {
        Some(digits_value(d))
    } else {
        None
    }
}

/// Reads the flags of `a` from index `i` on into `d`; later flags override
/// earlier ones.
pub open spec fn scan(a: Seq<Seq<char>>, i: int, d: Draft) -> Result<Draft, UsageError>
    decreases a.len() - i,
{
    if i < 0 || i >= a.len() {
        Ok(d)
    } else if a[i] == "--no-validate"@ {
        scan(a, i + 1, Draft { validate: false, ..d })
    } else if a[i] == "--dataset"@ || a[i] == "--algo"@ || a[i] == "--out"@ || a[i] == "--warmup"@
        || a[i] == "--reps"@ {
        if i + 1 >= a.len() {
            Err(UsageError::MissingValue)
        } else if a[i] == "--dataset"@ {
            scan(a, i + 2, Draft { dataset: Some(a[i + 1]), ..d })
        } else if a[i] == "--algo"@ {
            scan(a, i + 2, Draft { algo: a[i + 1], ..d })
        } else if a[i] == "--out"@ {
            scan(a, i + 2, Draft { out: a[i + 1], ..d })
        } else {
            match count_value(a[i + 1]) {
                None => Err(UsageError::BadNumber),
                Some(v) => if a[i] == "--warmup"@ {
                    scan(a, i + 2, Draft { warmup: v, ..d })
                } else {
                    scan(a, i + 2, Draft { reps: v, ..d })
                },
            }
        }
    } else {
        Err(UsageError::UnknownFlag(i as usize))
    }
}

/// The configuration that the arguments `a` (program name excluded) select,
/// or the usage error that rejects them.
pub open spec fn resolve(a: Seq<Seq<char>>) -> Result<Draft, UsageError> {
    match scan(a, 0, default_draft()) {
        Err(e) => Err(e),
        Ok(d) => if d.dataset is None {
            Err(UsageError::MissingDataset)
        } else if d.warmup > MAX_WARMUP || d.reps == 0 {
            Err(UsageError::OutOfRange)
        } else if d.algo != "builtin"@ {
            Err(UsageError::UnsupportedAlgo)
        } else {
            Ok(d)
        },
    }
}

impl Args {
    pub open spec fn draft(&self) -> Draft {
        Draft {
            dataset: Some(self.dataset@),
            algo: self.algo@,
            warmup: self.warmup as nat,
            reps: self.reps as nat,
            out: self.out@,
            validate: self.validate,
        }
    }
}

proof fn lemma_prefix_value(s: Seq<char>, k: int)
    requires
        0 <= k <= s.len(),
        all_digits(s),
    ensures
        digits_value(s.take(k)) <= digits_value(s),
    decreases s.len(),
{
    if k < s.len() {
        lemma_prefix_value(s.drop_last(), k);
        assert(s.drop_last().take(k) =~= s.take(k));
    } else {
        assert(s.take(k) =~= s);
    }
}

/// Reads a count: an optional `+`, then decimal digits whose value fits a
/// `usize`.
pub fn parse_count(s: &str) -> (r: Option<usize>)
    ensures
        match r {
            Some(v) => count_value(s@) == Some(v as nat),
            None => count_value(s@) is None,
        },
{
    let len = s.unicode_len();
    let start: usize = if len > 0 && s.get_char(0) == '+' {
        1
    } else {
        0
    };
    let ghost d = s@.subrange(start as int, len as int);
    assert(d =~= unsigned_part(s@));
    if start == len {
        return None;
    }
    let mut acc: u128 = 0;
    let mut i: usize = start;
    while i < len
        invariant
            len == s@.len(),
            start <= i <= len,
            d == s@.subrange(start as int, len as int),
            d == unsigned_part(s@),
            all_digits(s@.subrange(start as int, i as int)),
            acc == digits_value(s@.subrange(start as int, i as int)),
            acc <= usize::MAX,
        decreases len - i,
    {
        let c = s.get_char(i);
        assert(s@.subrange(start as int, i + 1).drop_last() =~= s@.subrange(start as int, i as int));
        if c < '0' || c > '9' {
            assert(d[i - start] == c);
            return None;
        }
        acc = acc * 10 + (c as u128 - 48);
        i = i + 1;
        if acc > usize::MAX as u128 {
            proof {
                if all_digits(d) {
                    assert(d.take(i - start) =~= s@.subrange(start as int, i as int));
                    lemma_prefix_value(d, i - start);
                }
            }
            return None;
        }
    }
    assert(s@.subrange(start as int, i as int) =~= d);
    Some(acc as usize)
}

fn is_flag(arg: &String, flag: &str) -> (r: bool)
    ensures
        r == (arg@ == flag@),
{
    *arg == String::from_str(flag)
}

/// Resolves the arguments `argv` (program name excluded) into a configuration.
pub fn parse_args(argv: &Vec<String>) -> (r: Result<Args, UsageError>)
    ensures
        match r {
            Ok(args) => resolve(texts(argv@)) == Ok::<Draft, UsageError>(args.draft()),
            Err(e) => resolve(texts(argv@)) == Err::<Draft, UsageError>(e),
        },
{
    let ghost a = texts(argv@);
    let mut dataset: Option<String> = None;
    let mut algo = String::from_str("builtin");
    let mut warmup: usize = 5;
    let mut reps: usize = 30;
    let mut out = String::from_str("results/raw.csv");
    let mut validate = true;
    let n = argv.len();
    let mut i: usize = 0;
    while i < n
        invariant
            n == argv@.len(),
            a == texts(argv@),
            a.len() == n,
            i <= n,
            scan(a, 0, default_draft()) == scan(
                a,
                i as int,
                Draft {
                    dataset: match dataset {
                        Some(s) => Some(s@),
                        None => None,
                    },
                    algo: algo@,
                    warmup: warmup as nat,
                    reps: reps as nat,
                    out: out@,
                    validate,
                },
            ),
        decreases n - i,
    {
        let arg = &argv[i];
        assert(a[i as int] == arg@);
        if is_flag(arg, "--no-validate") {
            validate = false;
            i = i + 1;
        } else if is_flag(arg, "--dataset") || is_flag(arg, "--algo") || is_flag(arg, "--out")
            || is_flag(arg, "--warmup") || is_flag(arg, "--reps") {
            if i + 1 >= n {
                return Err(UsageError::MissingValue);
            }
            let value = &argv[i + 1];
            assert(a[i + 1] == value@);
            if is_flag(arg, "--dataset") {
                dataset = Some(value.clone());
            } else if is_flag(arg, "--algo") {
                algo = value.clone();
            } else if is_flag(arg, "--out") {
                out = value.clone();
            } else {
                match parse_count(value.as_str()) {
                    None => {
                        return Err(UsageError::BadNumber);
                    },
                    Some(v) => {
                        if is_flag(arg, "--warmup") {
                            warmup = v;
                        } else {
                            reps = v;
                        }
                    },
                }
            }
            i = i + 2;
        } else {
            return Err(UsageError::UnknownFlag(i));
        }
    }
    match dataset {
        None => Err(UsageError::MissingDataset),
        Some(dataset) => {
            if warmup > MAX_WARMUP || reps == 0 {
                Err(UsageError::OutOfRange)
            } else if !is_flag(&algo, "builtin") {
                Err(UsageError::UnsupportedAlgo)
            } else {
                Ok(Args { dataset, algo, warmup, reps, out, validate })
            }
        },
    }
}

} // verus!
