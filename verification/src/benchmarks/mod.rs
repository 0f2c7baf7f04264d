//! What the benchmarks share: results, progress reporting, input data and
//! the arguments of the compute kernels.
use vstd::arithmetic::power2::pow2;
use vstd::prelude::*;

pub mod bandwidth;
pub mod bandwidth_laws;
pub mod clock_laws;
pub mod data_laws;
pub mod fault_laws;
pub mod grade_laws;
pub mod matmul;
pub mod pass_laws;
pub mod precision;
pub mod precision_laws;
pub mod run_laws;
pub mod square;
pub mod square_laws;
pub mod stability;
pub mod stability_laws;
pub mod vram;
pub mod vram_laws;

use crate::float_bits::Float32;
#[allow(unused_imports)]
use crate::float_bits::{law_magnitudes_order_values, magnitude_units};
#[allow(unused_imports)]
use crate::rounding::{is_product, lemma_rounds_below, lemma_rounds_to_no_more, nearest_magnitude};
use crate::rounding::{multiply, nearest_of_small_units};
use crate::score::Score;

verus! {

/// How a benchmark went.
#[derive(Debug, Clone, PartialEq)]
pub enum TestStatus {
    Passed,
    Warning,
    Failed,
    Error(String),
}

/// How a benchmark went, with the error's text.
pub enum StatusView {
    Passed,
    Warning,
    Failed,
    Error(Seq<char>),
}

impl View for TestStatus {
    type V = StatusView;

    open spec fn view(&self) -> StatusView {
        match self {
            TestStatus::Passed => StatusView::Passed,
            TestStatus::Warning => StatusView::Warning,
            TestStatus::Failed => StatusView::Failed,
            TestStatus::Error(message) => StatusView::Error(message@),
        }
    }
}

/// Result of a single benchmark.
#[derive(Debug, Clone)]
pub struct BenchmarkResult {
    pub name: String,
    pub status: TestStatus,
    /// From 0 to 100 points.
    pub score: Score,
    pub details: String,
    pub metric_value: String,
}

/// A benchmark's result, with the texts as character sequences.
pub struct ResultView {
    pub name: Seq<char>,
    pub status: StatusView,
    pub score: Score,
    pub details: Seq<char>,
    pub metric_value: Seq<char>,
}

impl View for BenchmarkResult {
    type V = ResultView;

    open spec fn view(&self) -> ResultView {
        ResultView {
            name: self.name@,
            status: self.status@,
            score: self.score,
            details: self.details@,
            metric_value: self.metric_value@,
        }
    }
}

/// A whole number of points.
pub open spec fn points(n: u64) -> Score {
    Score { num: n, den: 1 }
}

/// Hook through which a user interface follows a benchmark. Every method does
/// nothing unless it is overridden.
pub trait ProgressCallback {
    /// Begins a stage with an optional total; without one its length is not
    /// known.
    fn begin(&mut self, _total: Option<u64>, _message: &str)
        default_ensures
            &*final(self) == &*old(self),
    {
    }

    /// Moves the current stage to a position.
    fn set_position(&mut self, _pos: u64)
        default_ensures
            &*final(self) == &*old(self),
    {
    }

    /// Changes the message of the current stage.
    fn set_message(&mut self, _message: &str)
        default_ensures
            &*final(self) == &*old(self),
    {
    }

    /// Leaves a line of information above the progress display.
    fn log(&mut self, _message: &str)
        default_ensures
            &*final(self) == &*old(self),
    {
    }

    /// Leaves a warning above the progress display.
    fn warn(&mut self, _message: &str)
        default_ensures
            &*final(self) == &*old(self),
    {
    }

    /// Ends the current stage.
    fn end(&mut self)
        default_ensures
            &*final(self) == &*old(self),
    {
    }
}

/// A progress callback that reports nothing.
pub struct NullProgress;

impl ProgressCallback for NullProgress {

}

/// A call of a progress callback.
#[derive(Debug)]
pub enum ProgressCall {
    Begin { total: Option<u64>, message: String },
    SetPosition { pos: u64 },
    SetMessage { message: String },
    Log { message: String },
    Warn { message: String },
    End,
}

/// Makes a call of a progress callback: the method that the call names gets what
/// the call holds.
///
/// Where that method does nothing, the callback stays as it was, whatever was
/// called before. A method that is not overridden does nothing, and none of
/// `NullProgress` is.
pub fn make_call<P: ProgressCallback>(progress: &mut P, call: &ProgressCall)
    ensures
        match *call {
            ProgressCall::Begin { total, message } => exists|p: &mut P, text: &str|
                #[trigger]
                call_ensures(P::begin, (p, total, text), ()) && *p == *old(progress) && *final(p)
                    == *final(progress)
                    && text@ == message@,
            ProgressCall::SetPosition { pos } => exists|p: &mut P|
                #[trigger]
                call_ensures(P::set_position, (p, pos), ()) && *p == *old(progress) && *final(p)
                    == *final(progress),
            ProgressCall::SetMessage { message } => exists|p: &mut P, text: &str|
                #[trigger]
                call_ensures(P::set_message, (p, text), ()) && *p == *old(progress) && *final(p)
                    == *final(progress)
                    && text@ == message@,
            ProgressCall::Log { message } => exists|p: &mut P, text: &str|
                #[trigger]
                call_ensures(P::log, (p, text), ()) && *p == *old(progress) && *final(p)
                    == *final(progress)
                    && text@ == message@,
            ProgressCall::Warn { message } => exists|p: &mut P, text: &str|
                #[trigger]
                call_ensures(P::warn, (p, text), ()) && *p == *old(progress) && *final(p)
                    == *final(progress)
                    && text@ == message@,
            ProgressCall::End => exists|p: &mut P|
                #[trigger]
                call_ensures(P::end, (p,), ()) && *p == *old(progress) && *final(p)
                    == *final(progress),
        },
        (match *call {
            ProgressCall::Begin { .. } => forall|
                p: &mut P,
                total: Option<u64>,
                text: &str,
            | #[trigger]
                call_ensures(P::begin, (p, total, text), ()) ==> *final(p) == *p,
            ProgressCall::SetPosition { .. } => forall|p: &mut P, pos: u64| #[trigger]
                call_ensures(P::set_position, (p, pos), ()) ==> *final(p) == *p,
            ProgressCall::SetMessage { .. } => forall|p: &mut P, text: &str| #[trigger]
                call_ensures(P::set_message, (p, text), ()) ==> *final(p) == *p,
            ProgressCall::Log { .. } => forall|p: &mut P, text: &str| #[trigger]
                call_ensures(P::log, (p, text), ()) ==> *final(p) == *p,
            ProgressCall::Warn { .. } => forall|p: &mut P, text: &str| #[trigger]
                call_ensures(P::warn, (p, text), ()) ==> *final(p) == *p,
            ProgressCall::End => forall|p: &mut P| #[trigger]
                call_ensures(P::end, (p,), ()) ==> *final(p) == *p,
        }) ==> *final(progress) == *old(progress),
{
    match call {
        ProgressCall::Begin { total, message } => progress.begin(*total, message.as_str()),
        ProgressCall::SetPosition { pos } => progress.set_position(*pos),
        ProgressCall::SetMessage { message } => progress.set_message(message.as_str()),
        ProgressCall::Log { message } => progress.log(message.as_str()),
        ProgressCall::Warn { message } => progress.warn(message.as_str()),
        ProgressCall::End => progress.end(),
    }
}

/// Bit patterns of the numbers 1, -2, 0.5, 4, -0.75, 3, 0.25 and -1.5, which
/// single precision holds exactly. Going round them from chunk to chunk gives
/// neighbouring memory different contents.
pub const VRAM_PATTERNS: [u32; 8] = [
    0x3F80_0000,
    0xC000_0000,
    0x3F00_0000,
    0x4080_0000,
    0xBF40_0000,
    0x4040_0000,
    0x3E80_0000,
    0xBFC0_0000,
];

/// How many bytes single-precision numbers take.
pub fn f32_bytes(count: usize) -> (bytes: u64)
    requires
        count * 4 <= usize::MAX,
    ensures
        bytes == count * 4,
{
    (count * 4) as u64
}

/// The state after one step of the linear congruential generator.
pub open spec fn lcg_next(state: u64) -> u64 {
    ((state * 6364136223846793005 + 1442695040888963407) % 0x1_0000_0000_0000_0000) as u64
}

/// The state after `steps` steps from a seed.
pub open spec fn lcg_state(seed: u64, steps: nat) -> u64
    decreases steps,
{
    if steps == 0 {
        seed
    } else {
        lcg_next(lcg_state(seed, (steps - 1) as nat))
    }
}

/// The number that a state stands for, in units of 2 to the power of -30: the
/// state's upper 31 bits, moved to lie around zero.
pub open spec fn lcg_sample(state: u64) -> int {
    state as int / 0x2_0000_0000 - 0x4000_0000
}

/// The single-precision number of a sample: the nearest one, but always below
/// one.
pub open spec fn lcg_single(sample: int) -> Float32 {
    if sample < 0 {
        Float32 {
            bits: (0x8000_0000 + nearest_magnitude((-sample) as nat * pow2(119), 1)) as u32,
        }
    } else if nearest_magnitude(sample as nat * pow2(119), 1) >= 0x3F80_0000 {
        Float32 { bits: 0x3F7F_FFFF }
    } else {
        Float32 { bits: nearest_magnitude(sample as nat * pow2(119), 1) as u32 }
    }
}

/// The number of a seed that stands at a place.
pub open spec fn lcg_element(seed: u64, index: int) -> Float32 {
    lcg_single(lcg_sample(lcg_state(seed, (index + 1) as nat)))
}

/// The value of the bit pattern of one.
proof fn lemma_one()
    ensures
        magnitude_units(0x3F80_0000, 0x80_0000) == pow2(149),
        0x4000_0000 * pow2(119) == pow2(149),
{
    vstd::arithmetic::power2::lemma2_to64();
    vstd::arithmetic::power2::lemma_pow2_adds(23, 126);
    vstd::arithmetic::power2::lemma_pow2_adds(30, 119);
    assert(0x3F80_0000nat / 0x80_0000 == 127 && 0x3F80_0000nat % 0x80_0000 == 0);
}

/// The number of a sample lies in `[-1, 1)`, and is no further from zero than
/// the last number below one where it is positive.
proof fn lemma_single_range(sample: int)
    requires
        -0x4000_0000 <= sample < 0x4000_0000,
    ensures
        lcg_single(sample).magnitude() <= 0x3F80_0000,
        lcg_single(sample).bits >= 0x8000_0000 <==> sample < 0,
        sample >= 0 ==> lcg_single(sample).magnitude() <= 0x3F7F_FFFF,
        -pow2(149) <= lcg_single(sample).units() < pow2(149),
{
    let n = if sample < 0 {
        (-sample) as nat
    } else {
        sample as nat
    };
    let far = pow2(119);
    lemma_one();
    vstd::arithmetic::power2::lemma_pow2_pos(149);
    assert(n * far <= 0x4000_0000 * far) by (nonlinear_arith)
        requires
            n <= 0x4000_0000,
    ;
    lemma_rounds_to_no_more(n * far, 1, 0x3F80_0000);
    law_magnitudes_order_values(lcg_single(sample).magnitude(), 0x3F80_0000, 0x80_0000);
}

fn lcg_samples(n: usize, seed: u64) -> (samples: Vec<i32>)
    ensures
        samples.len() == n,
        forall|i: int|
            0 <= i < n ==> #[trigger] samples[i] == lcg_sample(lcg_state(seed, (i + 1) as nat)),
        forall|i: int| 0 <= i < n ==> -0x4000_0000 <= #[trigger] samples[i] < 0x4000_0000,
{
    let mut samples: Vec<i32> = Vec::new();
    let mut state: u64 = seed;
    while samples.len() < n
        invariant
            samples.len() <= n,
            state == lcg_state(seed, samples.len() as nat),
            forall|i: int|
                0 <= i < samples.len() ==> #[trigger] samples[i] == lcg_sample(
                    lcg_state(seed, (i + 1) as nat),
                ),
            forall|i: int|
                0 <= i < samples.len() ==> -0x4000_0000 <= #[trigger] samples[i] < 0x4000_0000,
        decreases n - samples.len(),
    {
        let ghost before = state;
        state = state.wrapping_mul(6364136223846793005).wrapping_add(1442695040888963407);
        proof {
            lemma_wrapping_step(before, state);
            assert(state >> 33 == state / 0x2_0000_0000) by (bit_vector);
            assert(state / 0x2_0000_0000 < 0x8000_0000) by (bit_vector);
        }
        let sample: i32 = ((state >> 33) as i64 - 0x4000_0000) as i32;
        samples.push(sample);
    }
    samples
}

fn single_of_sample(sample: i32) -> (value: Float32)
    requires
        -0x4000_0000 <= sample < 0x4000_0000,
    ensures
        value == lcg_single(sample as int),
{
    proof {
        lemma_single_range(sample as int);
        lemma_nearest_range(sample as int);
    }
    if sample < 0 {
        Float32 { bits: 0x8000_0000 + nearest_of_small_units((-(sample as i64)) as u32) }
    } else {
        let magnitude: u32 = nearest_of_small_units(sample as u32);
        if magnitude >= 0x3F80_0000 {
            Float32 { bits: 0x3F7F_FFFF }
        } else {
            Float32 { bits: magnitude }
        }
    }
}

proof fn lemma_nearest_range(sample: int)
    requires
        -0x4000_0000 <= sample < 0x4000_0000,
    ensures
        sample < 0 ==> nearest_magnitude((-sample) as nat * pow2(119), 1) <= 0x3F80_0000,
        sample >= 0 ==> nearest_magnitude(sample as nat * pow2(119), 1) <= 0x3F80_0000,
{
    let n = if sample < 0 {
        (-sample) as nat
    } else {
        sample as nat
    };
    let far = pow2(119);
    lemma_one();
    assert(n * far <= 0x4000_0000 * far) by (nonlinear_arith)
        requires
            n <= 0x4000_0000,
    ;
    lemma_rounds_to_no_more(n * far, 1, 0x3F80_0000);
}

/// Pseudo-random single-precision numbers, the same for the same seed. All of
/// them lie in `[-1, 1)`.
pub fn lcg_vec(n: usize, seed: u64) -> (values: Vec<Float32>)
    ensures
        values@ == Seq::new(n as nat, |i: int| lcg_element(seed, i)),
        forall|i: int|
            0 <= i < n ==> (#[trigger] values[i]).finite() && -pow2(149) <= values[i].units()
                < pow2(149),
{
    let samples: Vec<i32> = lcg_samples(n, seed);
    let mut values: Vec<Float32> = Vec::new();
    while values.len() < n
        invariant
            values.len() <= n,
            samples.len() == n,
            forall|j: int|
                0 <= j < n ==> #[trigger] samples[j] == lcg_sample(lcg_state(seed, (j + 1) as nat)),
            forall|j: int| 0 <= j < n ==> -0x4000_0000 <= #[trigger] samples[j] < 0x4000_0000,
            values@ == Seq::new(values@.len(), |i: int| lcg_element(seed, i)),
            forall|i: int|
                0 <= i < values.len() ==> (#[trigger] values[i]).finite() && -pow2(149)
                    <= values[i].units() < pow2(149),
        decreases n - values.len(),
    {
        let sample: i32 = samples[values.len()];
        proof {
            lemma_single_range(sample as int);
        }
        values.push(single_of_sample(sample));
        assert(values@ =~= Seq::new(values@.len(), |i: int| lcg_element(seed, i)));
    }
    values
}

/// Whether numbers are those of a seed, each times a scale in single precision.
pub open spec fn are_scaled(values: Seq<Float32>, n: nat, seed: u64, scale: Float32) -> bool {
    &&& values.len() == n
    &&& forall|i: int|
        0 <= i < n ==> is_product(#[trigger] values[i], lcg_element(seed, i), scale)
}

/// A number of `[-1, 1)` times a positive scale lies between `-scale` and
/// `scale`, and is not `scale` itself unless the scale is so small that single
/// precision has too few numbers below it.
pub proof fn law_scaled_numbers_stay_in_range(
    seed: u64,
    index: int,
    scale: Float32,
    product: Float32,
)
    requires
        scale.finite(),
        scale.units() > 0,
        is_product(product, lcg_element(seed, index), scale),
    ensures
        product.finite(),
        -scale.units() <= product.units() <= scale.units(),
        scale.magnitude() > 0x80_0000 ==> product.units() < scale.units(),
{
    let sample = lcg_sample(lcg_state(seed, (index + 1) as nat));
    lemma_single_range(sample);
    lemma_scaled(lcg_single(sample), scale, product);
}

proof fn lemma_scaled(value: Float32, scale: Float32, product: Float32)
    requires
        value.magnitude() <= 0x3F80_0000,
        value.bits < 0x8000_0000 ==> value.magnitude() <= 0x3F7F_FFFF,
        scale.finite(),
        scale.units() > 0,
        is_product(product, value, scale),
    ensures
        product.finite(),
        -scale.units() <= product.units() <= scale.units(),
        scale.magnitude() > 0x80_0000 ==> product.units() < scale.units(),
{
    lemma_one();
    let v = magnitude_units(value.magnitude(), 0x80_0000);
    let whole = magnitude_units(scale.magnitude(), 0x80_0000);
    let one = pow2(149);
    law_magnitudes_order_values(value.magnitude(), 0x3F80_0000, 0x80_0000);
    law_magnitudes_order_values(0, scale.magnitude(), 0x80_0000);
    vstd::arithmetic::power2::lemma_pow2_pos(149);
    assert(magnitude_units(0, 0x80_0000) == 0);
    assert(v * whole <= one * whole) by (nonlinear_arith)
        requires
            0 <= v <= one,
            0 <= whole,
    ;
    lemma_rounds_to_no_more(v * whole, one, scale.magnitude());
    law_magnitudes_order_values(product.magnitude(), scale.magnitude(), 0x80_0000);
    law_magnitudes_order_values(0, product.magnitude(), 0x80_0000);
    if scale.magnitude() > 0x80_0000 && value.bits < 0x8000_0000 {
        lemma_last_below_one();
        law_magnitudes_order_values(value.magnitude(), 0x3F7F_FFFF, 0x80_0000);
        assert((v * whole) * 0x100_0000 <= (one * whole) * 0xFF_FFFF) by (nonlinear_arith)
            requires
                v * 0x100_0000 <= one * 0xFF_FFFF,
                whole >= 0,
        ;
        lemma_rounds_below(v * whole, one, scale.magnitude());
    }
}

/// The value of the last number below one.
proof fn lemma_last_below_one()
    ensures
        magnitude_units(0x3F7F_FFFF, 0x80_0000) * 0x100_0000 == pow2(149) * 0xFF_FFFF,
{
    vstd::arithmetic::power2::lemma2_to64();
    vstd::arithmetic::power2::lemma_pow2_adds(24, 125);
    let step = pow2(125);
    let last = magnitude_units(0x3F7F_FFFF, 0x80_0000);
    assert(0x3F7F_FFFFnat / 0x80_0000 == 126 && 0x3F7F_FFFFnat % 0x80_0000 == 0x7F_FFFF);
    assert(last == 0xFF_FFFF * step);
    assert(pow2(149) == 0x100_0000 * step);
}

/// Pseudo-random numbers of `[-1, 1)`, each times a scale, rounded to single
/// precision. Times a positive scale above the smallest normal number, all of
/// them lie in `[-scale, scale)`.
pub fn lcg_vec_scaled(n: usize, seed: u64, scale: Float32) -> (values: Vec<Float32>)
    ensures
        are_scaled(values@, n as nat, seed, scale),
        scale.finite() && scale.units() > 0 ==> forall|i: int|
            0 <= i < n ==> (#[trigger] values[i]).finite() && -scale.units() <= values[i].units()
                <= scale.units(),
        0x80_0000 < scale.bits < 0x7F80_0000 ==> forall|i: int|
            0 <= i < n ==> (#[trigger] values[i]).units() < scale.units(),
{
    let unscaled: Vec<Float32> = lcg_vec(n, seed);
    let mut values: Vec<Float32> = Vec::new();
    while values.len() < n
        invariant
            values.len() <= n,
            unscaled@ == Seq::new(n as nat, |i: int| lcg_element(seed, i)),
            forall|i: int|
                0 <= i < values.len() ==> is_product(
                    #[trigger] values[i],
                    lcg_element(seed, i),
                    scale,
                ),
        decreases n - values.len(),
    {
        let value: Float32 = unscaled[values.len()];
        values.push(multiply(value, scale));
    }
    proof {
        if scale.finite() && scale.units() > 0 {
            assert forall|i: int| 0 <= i < n implies (#[trigger] values[i]).finite()
                && -scale.units() <= values[i].units() <= scale.units() by {
                law_scaled_numbers_stay_in_range(seed, i, scale, values[i]);
            }
        }
        if 0x80_0000 < scale.bits < 0x7F80_0000 {
            law_magnitudes_order_values(0, scale.magnitude(), 0x80_0000);
            assert(magnitude_units(0, 0x80_0000) == 0);
            assert forall|i: int| 0 <= i < n implies (#[trigger] values[i]).units()
                < scale.units() by {
                law_scaled_numbers_stay_in_range(seed, i, scale, values[i]);
            }
        }
    }
    values
}

proof fn lemma_wrapping_step(before: u64, after: u64)
    requires
        after == before.wrapping_mul(6364136223846793005).wrapping_add(1442695040888963407),
    ensures
        after == lcg_next(before),
{
    let product = before * 6364136223846793005;
    let modulus = 0x1_0000_0000_0000_0000int;
    assert(before.wrapping_mul(6364136223846793005) == product % modulus);
    vstd::arithmetic::div_mod::lemma_add_mod_noop(product, 1442695040888963407, modulus);
    vstd::arithmetic::div_mod::lemma_small_mod(1442695040888963407, 0x1_0000_0000_0000_0000);
    let sum = product % modulus + 1442695040888963407;
    if sum < modulus {
        vstd::arithmetic::div_mod::lemma_small_mod(sum as nat, modulus as nat);
    }
}

/// Push constants of the kernels that work on a count of elements with one
/// number.
#[derive(Debug, Clone, Copy, PartialEq, Eq, Structural)]
pub struct PushCount1f {
    pub count: u32,
    pub value: Float32,
}

/// Push constants of the matrix product.
#[derive(Debug, Clone, Copy, PartialEq, Eq, Structural)]
pub struct PushMatmul {
    pub n: u32,
}

/// A byte of a word, the least significant first.
pub open spec fn word_byte(word: u32, place: int) -> u8 {
    if place == 0 {
        (word % 0x100) as u8
    } else if place == 1 {
        (word / 0x100 % 0x100) as u8
    } else if place == 2 {
        (word / 0x1_0000 % 0x100) as u8
    } else {
        (word / 0x100_0000) as u8
    }
}

/// The bytes of words, the least significant byte of each first.
pub open spec fn little_endian(words: Seq<u32>) -> Seq<u8> {
    Seq::new(4 * words.len(), |i: int| word_byte(words[i / 4], i % 4))
}

/// The bytes of words, the most significant byte of each first.
pub open spec fn big_endian(words: Seq<u32>) -> Seq<u8> {
    Seq::new(4 * words.len(), |i: int| word_byte(words[i / 4], 3 - i % 4))
}

/// The bytes of words as they lie in memory, from `bytemuck::bytes_of`. The
/// words come one after the other. Which byte of a word comes first depends
/// on the machine, the same for all words.
#[verifier::external_body]
fn bytes_of_words<const N: usize>(words: &[u32; N]) -> (bytes: Vec<u8>)
    ensures
        bytes@ == little_endian(words@) || bytes@ == big_endian(words@),
{
    bytemuck::bytes_of(words).to_vec()
}

impl PushCount1f {
    /// The push constants as bytes: the count, and the number after it.
    pub fn bytes(&self) -> (bytes: Vec<u8>)
        ensures
            bytes.len() == 8,
            bytes@ == little_endian(seq![self.count, self.value.bits]) || bytes@ == big_endian(
                seq![self.count, self.value.bits],
            ),
    {
        let words: [u32; 2] = [self.count, self.value.bits];
        assert(words@ =~= seq![self.count, self.value.bits]);
        bytes_of_words(&words)
    }
}

impl PushMatmul {
    /// The push constants as bytes.
    pub fn bytes(&self) -> (bytes: Vec<u8>)
        ensures
            bytes.len() == 4,
            bytes@ == little_endian(seq![self.n]) || bytes@ == big_endian(seq![self.n]),
    {
        let words: [u32; 1] = [self.n];
        assert(words@ =~= seq![self.n]);
        bytes_of_words(&words)
    }
}

} // verus!
