//! Incubation: naming of fossils and classification of a compile run.
//!
//! Each generation is written to `gen_XXX.rs` (the generation number zero
//! padded to at least three digits), compiled to `gen_XXX.wasm`, and the
//! run is classified as a success, a compiler failure, or a success that
//! took longer than its budget.

use vstd::prelude::*;
use std::path::PathBuf;
use std::time::Duration;
use std::sync::atomic::AtomicU32;

verus! {

/// `std::io::Error`, carried through opaquely.
#[verifier::external_type_specification]
#[verifier::external_body]
pub struct ExIoError(std::io::Error);

/// `std::path::PathBuf`, carried through opaquely.
#[verifier::external_type_specification]
#[verifier::external_body]
pub struct ExPathBuf(std::path::PathBuf);

/// `<std::time::Duration as Clone>::clone`: `Duration` is `Copy`, so the
/// clone is the same duration.
pub assume_specification[ <std::time::Duration as Clone>::clone ](d: &std::time::Duration) -> (r:
    std::time::Duration)
    ensures
        r == *d,
;

/// `<std::path::PathBuf as Clone>::clone`: a copy of the path; nothing is
/// claimed of it.
pub assume_specification[ <std::path::PathBuf as Clone>::clone ](p: &std::path::PathBuf) -> std::path::PathBuf;

#[derive(Debug)]
pub enum IncubatorError {
    Io(std::io::Error),
    /// The compiler exited unsuccessfully; its stderr is kept for the log.
    Rustc { status: i32, stderr: String },
    /// The compile produced an artifact, but its wall time exceeded the
    /// budget. The artifact path is still returned.
    Slow { wasm: PathBuf, elapsed: Duration },
}

impl From<std::io::Error> for IncubatorError {
    fn from(e: std::io::Error) -> (r: Self) {
        IncubatorError::Io(e)
    }
}

impl vstd::std_specs::convert::FromSpecImpl<std::io::Error> for IncubatorError {
    open spec fn obeys_from_spec() -> bool {
        true
    }

    open spec fn from_spec(v: std::io::Error) -> Self {
        IncubatorError::Io(v)
    }
}

/// One successfully incubated generation.
#[derive(Debug, Clone)]
pub struct CompiledGen {
    pub generation: u32,
    pub rs_path: PathBuf,
    pub wasm_path: PathBuf,
    pub wall_time: Duration,
}

/// How a compiler run ended.
#[derive(Debug)]
pub enum CompileRun {
    /// The compiler exited unsuccessfully, with this exit code if it had
    /// one, and this stderr.
    Failed { code: Option<i32>, stderr: String },
    /// The compiler succeeded after `elapsed`; `over_budget` tells whether
    /// that exceeded the compile budget.
    Finished { elapsed: Duration, over_budget: bool },
}

/// The incubator's generation counter, shared by every clone of a pool so
/// that fossil numbers keep increasing.
#[derive(Debug)]
pub struct GenerationCounter {
    next: AtomicU32,
}

impl GenerationCounter {
    /// A counter whose first generation is `0`.
    pub fn new() -> Self {
        GenerationCounter { next: AtomicU32::new(0) }
    }

    /// Reserve the next generation number: each call gets the counter's
    /// value and advances it by one, wrapping after `u32::MAX`. The value
    /// depends on the reservations made concurrently; nothing is claimed.
    pub fn next_generation(&self) -> u32 {
        self.next.fetch_add(1, std::sync::atomic::Ordering::Relaxed)
    }
}

/// Whether a compile that took `elapsed_ns` nanoseconds exceeded a budget
/// of `budget_ns` nanoseconds.
pub fn over_budget(elapsed_ns: u128, budget_ns: u128) -> (r: bool)
    ensures
        r == (elapsed_ns > budget_ns),
{
    elapsed_ns > budget_ns
}

/// The decimal digit `d` as a character.
pub open spec fn digit_char(d: int) -> char {
    seq!['0', '1', '2', '3', '4', '5', '6', '7', '8', '9'][d]
}

/// The decimal representation of `n`, without leading zeros.
pub open spec fn decimal(n: nat) -> Seq<char>
    decreases n,
{
    if n < 10 {
        seq![digit_char(n as int)]
    } else {
        decimal(n / 10).push(digit_char((n % 10) as int))
    }
}

/// `s` padded on the left with `'0'` to at least `width` characters.
pub open spec fn zero_pad(s: Seq<char>, width: nat) -> Seq<char> {
    if s.len() < width {
        Seq::new((width - s.len()) as nat, |i: int| '0') + s
    } else {
        s
    }
}

/// The file stem of generation `g`'s fossils: `gen_` and the generation
/// number, zero padded to at least three digits.
pub open spec fn fossil_stem_of(g: nat) -> Seq<char> {
    seq!['g', 'e', 'n', '_'] + zero_pad(decimal(g), 3)
}

/// The number a sequence of decimal digit characters denotes.
pub open spec fn digits_value(s: Seq<char>) -> int
    decreases s.len(),
{
    if s.len() == 0 {
        0
    } else {
        digits_value(s.drop_last()) * 10 + (s.last() as int - '0' as int)
    }
}

proof fn lemma_digit_char_value(d: int)
    requires
        0 <= d < 10,
    ensures
        digit_char(d) as int - '0' as int == d,
{
}

proof fn lemma_decimal_value(n: nat)
    ensures
        digits_value(decimal(n)) == n,
        decimal(n).len() >= 1,
    decreases n,
{
    if n < 10 {
        lemma_digit_char_value(n as int);
        assert(decimal(n).drop_last() =~= Seq::<char>::empty());
        assert(digits_value(Seq::<char>::empty()) == 0);
        assert(digits_value(decimal(n)) == digits_value(decimal(n).drop_last()) * 10 + (
        decimal(n).last() as int - '0' as int));
    } else {
        lemma_decimal_value(n / 10);
        lemma_digit_char_value((n % 10) as int);
        assert(decimal(n).drop_last() =~= decimal(n / 10));
        assert(decimal(n).last() == digit_char((n % 10) as int));
        assert(n == (n / 10) * 10 + n % 10) by (nonlinear_arith);
        assert(digits_value(decimal(n)) == digits_value(decimal(n).drop_last()) * 10 + (
        decimal(n).last() as int - '0' as int));
    }
}

proof fn lemma_leading_zeros_value(k: nat, s: Seq<char>)
    ensures
        digits_value(Seq::new(k, |i: int| '0') + s) == digits_value(s),
    decreases s.len(), k,
{
    if s.len() > 0 {
        assert((Seq::new(k, |i: int| '0') + s).drop_last() =~= Seq::new(k, |i: int| '0')
            + s.drop_last());
        lemma_leading_zeros_value(k, s.drop_last());
    } else if k > 0 {
        assert((Seq::new(k, |i: int| '0') + s).drop_last() =~= Seq::new(
            (k - 1) as nat,
            |i: int| '0',
        ) + s);
        lemma_leading_zeros_value((k - 1) as nat, s);
    } else {
        assert(Seq::new(k, |i: int| '0') + s =~= s);
    }
}

/// Distinct generations get distinct fossil stems, so no fossil is ever
/// overwritten by a later generation.
pub proof fn lemma_fossil_stem_injective(a: nat, b: nat)
    requires
        fossil_stem_of(a) == fossil_stem_of(b),
    ensures
        a == b,
{
    let pa = zero_pad(decimal(a), 3);
    let pb = zero_pad(decimal(b), 3);
    assert(pa =~= fossil_stem_of(a).skip(4));
    assert(pb =~= fossil_stem_of(b).skip(4));
    lemma_decimal_value(a);
    lemma_decimal_value(b);
    if decimal(a).len() < 3 {
        lemma_leading_zeros_value((3 - decimal(a).len()) as nat, decimal(a));
    }
    if decimal(b).len() < 3 {
        lemma_leading_zeros_value((3 - decimal(b).len()) as nat, decimal(b));
    }
}

fn digit_str(d: u32) -> (r: &'static str)
    requires
        d < 10,
    ensures
        r@ == seq![digit_char(d as int)],
{
    if d == 0 {
        proof { reveal_strlit("0"); }
        "0"
    } else if d == 1 {
        proof { reveal_strlit("1"); }
        "1"
    } else if d == 2 {
        proof { reveal_strlit("2"); }
        "2"
    } else if d == 3 {
        proof { reveal_strlit("3"); }
        "3"
    } else if d == 4 {
        proof { reveal_strlit("4"); }
        "4"
    } else if d == 5 {
        proof { reveal_strlit("5"); }
        "5"
    } else if d == 6 {
        proof { reveal_strlit("6"); }
        "6"
    } else if d == 7 {
        proof { reveal_strlit("7"); }
        "7"
    } else if d == 8 {
        proof { reveal_strlit("8"); }
        "8"
    } else {
        proof { reveal_strlit("9"); }
        "9"
    }
}

/// The decimal digits of `n`, most significant first.
fn decimal_digits(n: u32) -> (r: Vec<u32>)
    ensures
        r@.len() >= 1,
        forall|i: int| 0 <= i < r@.len() ==> r@[i] < 10,
        r@.map_values(|d: u32| digit_char(d as int)) == decimal(n as nat),
    decreases n,
{
    if n < 10 {
        let mut r: Vec<u32> = Vec::new();
        r.push(n);
        assert(r@.map_values(|d: u32| digit_char(d as int)) =~= decimal(n as nat));
        r
    } else {
        let mut r = decimal_digits(n / 10);
        let ghost prev = r@;
        r.push(n % 10);
        assert(r@.map_values(|d: u32| digit_char(d as int)) =~= prev.map_values(
            |d: u32| digit_char(d as int),
        ).push(digit_char((n % 10) as int)));
        r
    }
}

/// The file stem of generation `generation`'s fossils, e.g. `gen_007`.
pub fn fossil_stem(generation: u32) -> (r: String)
    ensures
        r@ == fossil_stem_of(generation as nat),
{
    let digits = decimal_digits(generation);
    let ghost dec = decimal(generation as nat);
    proof {
        reveal_strlit("gen_");
        reveal_strlit("0");
    }
    let mut r = "gen_".to_owned();
    let mut pad = digits.len();
    while pad < 3
        invariant
            digits@.len() <= pad,
            pad <= 3 || pad == digits@.len(),
            r@ == seq!['g', 'e', 'n', '_'] + Seq::new((pad - digits@.len()) as nat, |i: int| '0'),
        decreases 3 - pad,
    {
        r.append("0");
        proof {
            reveal_strlit("0");
            assert(r@ =~= seq!['g', 'e', 'n', '_'] + Seq::new(
                (pad + 1 - digits@.len()) as nat,
                |i: int| '0',
            ));
        }
        pad = pad + 1;
    }
    let ghost prefix = r@;
    let mut i: usize = 0;
    while i < digits.len()
        invariant
            0 <= i <= digits@.len(),
            forall|j: int| 0 <= j < digits@.len() ==> digits@[j] < 10,
            r@ == prefix + digits@.take(i as int).map_values(|d: u32| digit_char(d as int)),
        decreases digits.len() - i,
    {
        r.append(digit_str(digits[i]));
        proof {
            assert(digits@.take(i + 1).map_values(|d: u32| digit_char(d as int)) =~= digits@.take(
                i as int,
            ).map_values(|d: u32| digit_char(d as int)).push(digit_char(digits@[i as int] as int)));
            assert(r@ =~= prefix + digits@.take(i + 1).map_values(|d: u32| digit_char(d as int)));
        }
        i = i + 1;
    }
    proof {
        assert(digits@.take(digits@.len() as int) =~= digits@);
        assert(digits@.map_values(|d: u32| digit_char(d as int)) == dec);
        assert(r@ =~= fossil_stem_of(generation as nat));
    }
    r
}

/// The fossil source text: the generated source and a trailing newline.
pub fn fossil_text(source: String) -> (r: String)
    ensures
        r@ == source@.push('\n'),
{
    let mut text = source;
    text.append("\n");
    proof {
        reveal_strlit("\n");
        assert(text@ =~= source@.push('\n'));
    }
    text
}

/// Classify a finished compiler run of generation `generation`: a failed
/// run is a compiler error (exit code `-1` when there was none), a run
/// over budget is `Slow` (still naming the artifact), any other run is the
/// compiled generation.
pub fn compile_outcome(generation: u32, rs_path: PathBuf, wasm_path: PathBuf, run: CompileRun) -> (r:
    Result<CompiledGen, IncubatorError>)
    ensures
        match run {
            CompileRun::Failed { code, stderr } => r == Err::<CompiledGen, IncubatorError>(
                IncubatorError::Rustc {
                    status: match code {
                        Some(c) => c,
                        None => -1i32,
                    },
                    stderr,
                },
            ),
            CompileRun::Finished { elapsed, over_budget } => if over_budget {
                r == Err::<CompiledGen, IncubatorError>(
                    IncubatorError::Slow { wasm: wasm_path, elapsed },
                )
            } else {
                r == Ok::<CompiledGen, IncubatorError>(
                    CompiledGen { generation, rs_path, wasm_path, wall_time: elapsed },
                )
            },
        },
{
    match run {
        CompileRun::Failed { code, stderr } => {
            let status = match code {
                Some(c) => c,
                None => -1,
            };
            Err(IncubatorError::Rustc { status, stderr })
        },
        CompileRun::Finished { elapsed, over_budget } => {
            if over_budget {
                Err(IncubatorError::Slow { wasm: wasm_path, elapsed })
            } else {
                Ok(CompiledGen { generation, rs_path, wasm_path, wall_time: elapsed })
            }
        },
    }
}

} // verus!
