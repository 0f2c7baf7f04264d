//! Single-precision accuracy.
//!
//! Three computations that give back their input: a matrix times the identity
//! matrix, a sum minus what was added, and a doubled number halved. The
//! largest deviation decides.
use vstd::prelude::*;

#[allow(unused_imports)]
use super::square::{fits, single_product};
use super::square::{single_product_tasks, square_count};
use super::{f32_bytes, lcg_vec_scaled, BenchmarkResult, PushCount1f, TestStatus};
#[allow(unused_imports)]
use super::{are_scaled, points, ResultView, StatusView};
use crate::compute::{Binding, Kernel};
#[allow(unused_imports)]
use crate::float_bits::{double, law_worst_error_decides, single, worst_of};
use crate::float_bits::{worst, Float32, Float64, INFINITY, ZERO};
#[allow(unused_imports)]
use crate::program::{compute_barrier, dispatch_1d, plain_tasks, tasks_view, StepView};
use crate::program::{
    cmd_global_compute_barrier, push_plain, record_dispatch_1d, Command, PushData, Step, Task,
};
use crate::score::Score;

verus! {

/// The rows of the matrix that is multiplied by the identity matrix.
pub const IDENTITY_SIZE: usize = 256;

/// How many numbers the other two computations take.
pub const VECTOR_COUNT: usize = 262_144;

/// The bytes of those numbers.
pub const VECTOR_BYTES: u64 = 1_048_576;

/// The seeds of the inputs.
pub const IDENTITY_SEED: u64 = 0x1234_5678;

pub const ADD_SEED_A: u64 = 0xAAAA_BBBB;

pub const ADD_SEED_B: u64 = 0xBBBB_AAAA;

pub const SCALE_SEED: u64 = 0xCCCC_DDDD;

/// The bit patterns of how far the inputs of each computation reach on both
/// sides of zero: 10, 100 and 50.
pub const IDENTITY_RANGE: u32 = 0x4120_0000;

pub const ADD_RANGE: u32 = 0x42C8_0000;

pub const SCALE_RANGE: u32 = 0x4248_0000;

/// The places of the operands and the results.
pub const A_BUFFER: usize = 0;

pub const B_BUFFER: usize = 1;

pub const C_BUFFER: usize = 2;

pub const D_BUFFER: usize = 3;

/// The places of the descriptor sets of the first and the second pass.
pub const FIRST_SET: usize = 0;

pub const SECOND_SET: usize = 1;

/// How many threads a group of the element-wise kernels has.
pub const LOCAL_SIZE: u32 = 256;

/// The bit patterns of 1, -1, 2 and 0.5.
pub const PLUS_ONE: u32 = 0x3F80_0000;

pub const MINUS_ONE: u32 = 0xBF80_0000;

pub const TWO: u32 = 0x4000_0000;

pub const HALF: u32 = 0x3F00_0000;

/// The bit patterns of the deviations that cost more points: 0.000001,
/// 0.00001, 0.0001, 0.001 and 0.1.
pub const ERROR_E6: u64 = 0x3EB0_C6F7_A0B5_ED8D;

pub const ERROR_E5: u64 = 0x3EE4_F8B5_88E3_68F1;

pub const ERROR_E4: u64 = 0x3F1A_36E2_EB1C_432D;

pub const ERROR_E3: u64 = 0x3F50_624D_D2F1_A9FC;

pub const ERROR_E1: u64 = 0x3FB9_9999_9999_999A;

/// The element of an identity matrix.
pub open spec fn identity_element(n: nat, index: int) -> Float32 {
    if index / n as int == index % n as int {
        Float32 { bits: PLUS_ONE }
    } else {
        Float32 { bits: 0 }
    }
}

/// The identity matrix of `n` rows.
pub fn identity_matrix(n: usize) -> (matrix: Vec<Float32>)
    requires
        n * n * 4 <= usize::MAX,
    ensures
        matrix@ == Seq::new((n * n) as nat, |i: int| identity_element(n as nat, i)),
{
    let count: usize = square_count(n);
    let mut matrix: Vec<Float32> = Vec::new();
    while matrix.len() < count
        invariant
            count == n * n,
            matrix.len() <= count,
            matrix@ == Seq::new(matrix@.len(), |i: int| identity_element(n as nat, i)),
        decreases count - matrix.len(),
    {
        let index: usize = matrix.len();
        proof {
            assert(n > 0) by (nonlinear_arith)
                requires
                    index < n * n,
                    index >= 0,
            ;
        }
        let bits: u32 = if index / n == index % n {
            PLUS_ONE
        } else {
            0
        };
        matrix.push(Float32 { bits });
        assert(matrix@ =~= Seq::new(matrix@.len(), |i: int| identity_element(n as nat, i)));
    }
    matrix
}

/// The push constants of an element-wise kernel on all numbers.
pub open spec fn vector_push(value: u32) -> PushData {
    PushData::Count1f(PushCount1f { count: VECTOR_COUNT as u32, value: Float32 { bits: value } })
}

/// A buffer behind a binding.
pub open spec fn vector_binding(binding: u32, buffer: usize) -> Binding {
    Binding { binding, buffer, bytes: VECTOR_BYTES }
}

/// Two passes of a kernel with a barrier between them.
pub open spec fn two_passes(kernel: Kernel, first: u32, second: u32) -> Seq<Command> {
    dispatch_1d(kernel, FIRST_SET, vector_push(first), VECTOR_COUNT as u32, LOCAL_SIZE) + seq![
        compute_barrier(),
    ] + dispatch_1d(kernel, SECOND_SET, vector_push(second), VECTOR_COUNT as u32, LOCAL_SIZE)
}

fn record_two_passes(kernel: Kernel, first: u32, second: u32) -> (commands: Vec<Command>)
    ensures
        commands@ == two_passes(kernel, first, second),
{
    let mut commands: Vec<Command> = Vec::new();
    record_dispatch_1d(
        &mut commands,
        kernel,
        FIRST_SET,
        PushData::Count1f(
            PushCount1f { count: VECTOR_COUNT as u32, value: Float32 { bits: first } },
        ),
        VECTOR_COUNT as u32,
        LOCAL_SIZE,
    );
    cmd_global_compute_barrier(&mut commands);
    record_dispatch_1d(
        &mut commands,
        kernel,
        SECOND_SET,
        PushData::Count1f(
            PushCount1f { count: VECTOR_COUNT as u32, value: Float32 { bits: second } },
        ),
        VECTOR_COUNT as u32,
        LOCAL_SIZE,
    );
    assert(commands@ =~= two_passes(kernel, first, second));
    commands
}

/// The steps of (A + B) - B.
pub open spec fn add_sub_program() -> Seq<StepView> {
    seq![
        StepView::AllocBuffer { buffer: A_BUFFER, bytes: VECTOR_BYTES },
        StepView::AllocBuffer { buffer: B_BUFFER, bytes: VECTOR_BYTES },
        StepView::AllocBuffer { buffer: C_BUFFER, bytes: VECTOR_BYTES },
        StepView::AllocBuffer { buffer: D_BUFFER, bytes: VECTOR_BYTES },
        StepView::Upload { buffer: A_BUFFER, input: 0, count: VECTOR_COUNT },
        StepView::Upload { buffer: B_BUFFER, input: 1, count: VECTOR_COUNT },
        StepView::CreatePool { max_sets: 2, max_storage_buffers: 6 },
        StepView::AllocSet { set: FIRST_SET, kernel: Kernel::VectorAdd },
        StepView::AllocSet { set: SECOND_SET, kernel: Kernel::VectorAdd },
        StepView::Bind {
            set: FIRST_SET,
            bindings: seq![
                vector_binding(0, A_BUFFER),
                vector_binding(1, B_BUFFER),
                vector_binding(2, C_BUFFER),
            ],
        },
        StepView::Bind {
            set: SECOND_SET,
            bindings: seq![
                vector_binding(0, C_BUFFER),
                vector_binding(1, B_BUFFER),
                vector_binding(2, D_BUFFER),
            ],
        },
        StepView::Execute { commands: two_passes(Kernel::VectorAdd, PLUS_ONE, MINUS_ONE) },
        StepView::Download { buffer: D_BUFFER, count: VECTOR_COUNT },
        StepView::DestroyPool,
        StepView::DestroyBuffer { buffer: A_BUFFER },
        StepView::DestroyBuffer { buffer: B_BUFFER },
        StepView::DestroyBuffer { buffer: C_BUFFER },
        StepView::DestroyBuffer { buffer: D_BUFFER },
    ]
}

/// The steps of A * 2 / 2.
pub open spec fn scale_program() -> Seq<StepView> {
    seq![
        StepView::AllocBuffer { buffer: A_BUFFER, bytes: VECTOR_BYTES },
        StepView::AllocBuffer { buffer: C_BUFFER, bytes: VECTOR_BYTES },
        StepView::AllocBuffer { buffer: D_BUFFER, bytes: VECTOR_BYTES },
        StepView::Upload { buffer: A_BUFFER, input: 0, count: VECTOR_COUNT },
        StepView::CreatePool { max_sets: 2, max_storage_buffers: 4 },
        StepView::AllocSet { set: FIRST_SET, kernel: Kernel::Scale },
        StepView::AllocSet { set: SECOND_SET, kernel: Kernel::Scale },
        StepView::Bind {
            set: FIRST_SET,
            bindings: seq![vector_binding(0, A_BUFFER), vector_binding(1, C_BUFFER)],
        },
        StepView::Bind {
            set: SECOND_SET,
            bindings: seq![vector_binding(0, C_BUFFER), vector_binding(1, D_BUFFER)],
        },
        StepView::Execute { commands: two_passes(Kernel::Scale, TWO, HALF) },
        StepView::Download { buffer: D_BUFFER, count: VECTOR_COUNT },
        StepView::DestroyPool,
        StepView::DestroyBuffer { buffer: A_BUFFER },
        StepView::DestroyBuffer { buffer: C_BUFFER },
        StepView::DestroyBuffer { buffer: D_BUFFER },
    ]
}

fn push_bind3(tasks: &mut Vec<Task>, set: usize, a: usize, b: usize, c: usize)
    ensures
        tasks_view(final(tasks)@) == tasks_view(old(tasks)@) + plain_tasks(
            seq![
                StepView::Bind {
                    set,
                    bindings: seq![vector_binding(0, a), vector_binding(1, b), vector_binding(2, c)],
                },
            ],
        ),
{
    let bytes: u64 = f32_bytes(VECTOR_COUNT);
    let bindings: Vec<Binding> = vec![
        Binding { binding: 0, buffer: a, bytes },
        Binding { binding: 1, buffer: b, bytes },
        Binding { binding: 2, buffer: c, bytes },
    ];
    assert(bindings@ =~= seq![vector_binding(0, a), vector_binding(1, b), vector_binding(2, c)]);
    let ghost before = tasks_view(tasks@);
    push_plain(tasks, Step::Bind { set, bindings });
    assert(tasks_view(tasks@) =~= before + plain_tasks(
        seq![
            StepView::Bind {
                set,
                bindings: seq![vector_binding(0, a), vector_binding(1, b), vector_binding(2, c)],
            },
        ],
    ));
}

fn push_bind2(tasks: &mut Vec<Task>, set: usize, a: usize, b: usize)
    ensures
        tasks_view(final(tasks)@) == tasks_view(old(tasks)@) + plain_tasks(
            seq![
                StepView::Bind {
                    set,
                    bindings: seq![vector_binding(0, a), vector_binding(1, b)],
                },
            ],
        ),
{
    let bytes: u64 = f32_bytes(VECTOR_COUNT);
    let bindings: Vec<Binding> = vec![
        Binding { binding: 0, buffer: a, bytes },
        Binding { binding: 1, buffer: b, bytes },
    ];
    assert(bindings@ =~= seq![vector_binding(0, a), vector_binding(1, b)]);
    let ghost before = tasks_view(tasks@);
    push_plain(tasks, Step::Bind { set, bindings });
    assert(tasks_view(tasks@) =~= before + plain_tasks(
        seq![
            StepView::Bind { set, bindings: seq![vector_binding(0, a), vector_binding(1, b)] },
        ],
    ));
}

/// The tasks of a matrix times the identity matrix.
pub fn check_identity_matmul() -> (tasks: Vec<Task>)
    ensures
        tasks_view(tasks@) == plain_tasks(single_product(IDENTITY_SIZE)),
{
    assert(fits(IDENTITY_SIZE));
    single_product_tasks(IDENTITY_SIZE)
}

/// The tasks of (A + B) - B.
pub fn check_add_sub() -> (tasks: Vec<Task>)
    ensures
        tasks_view(tasks@) == plain_tasks(add_sub_program()),
{
    let count: usize = VECTOR_COUNT;
    let bytes: u64 = f32_bytes(count);
    let mut tasks: Vec<Task> = Vec::new();
    push_plain(&mut tasks, Step::AllocBuffer { buffer: A_BUFFER, bytes });
    push_plain(&mut tasks, Step::AllocBuffer { buffer: B_BUFFER, bytes });
    push_plain(&mut tasks, Step::AllocBuffer { buffer: C_BUFFER, bytes });
    push_plain(&mut tasks, Step::AllocBuffer { buffer: D_BUFFER, bytes });
    push_plain(&mut tasks, Step::Upload { buffer: A_BUFFER, input: 0, count });
    push_plain(&mut tasks, Step::Upload { buffer: B_BUFFER, input: 1, count });
    push_plain(&mut tasks, Step::CreatePool { max_sets: 2, max_storage_buffers: 6 });
    push_plain(&mut tasks, Step::AllocSet { set: FIRST_SET, kernel: Kernel::VectorAdd });
    push_plain(&mut tasks, Step::AllocSet { set: SECOND_SET, kernel: Kernel::VectorAdd });
    push_bind3(&mut tasks, FIRST_SET, A_BUFFER, B_BUFFER, C_BUFFER);
    push_bind3(&mut tasks, SECOND_SET, C_BUFFER, B_BUFFER, D_BUFFER);
    let commands: Vec<Command> = record_two_passes(Kernel::VectorAdd, PLUS_ONE, MINUS_ONE);
    push_plain(&mut tasks, Step::Execute { commands });
    push_plain(&mut tasks, Step::Download { buffer: D_BUFFER, count });
    push_plain(&mut tasks, Step::DestroyPool);
    push_plain(&mut tasks, Step::DestroyBuffer { buffer: A_BUFFER });
    push_plain(&mut tasks, Step::DestroyBuffer { buffer: B_BUFFER });
    push_plain(&mut tasks, Step::DestroyBuffer { buffer: C_BUFFER });
    push_plain(&mut tasks, Step::DestroyBuffer { buffer: D_BUFFER });
    assert(tasks_view(tasks@) =~= plain_tasks(add_sub_program()));
    tasks
}

/// The tasks of A * 2 / 2.
pub fn check_scale_mul_div() -> (tasks: Vec<Task>)
    ensures
        tasks_view(tasks@) == plain_tasks(scale_program()),
{
    let count: usize = VECTOR_COUNT;
    let bytes: u64 = f32_bytes(count);
    let mut tasks: Vec<Task> = Vec::new();
    push_plain(&mut tasks, Step::AllocBuffer { buffer: A_BUFFER, bytes });
    push_plain(&mut tasks, Step::AllocBuffer { buffer: C_BUFFER, bytes });
    push_plain(&mut tasks, Step::AllocBuffer { buffer: D_BUFFER, bytes });
    push_plain(&mut tasks, Step::Upload { buffer: A_BUFFER, input: 0, count });
    push_plain(&mut tasks, Step::CreatePool { max_sets: 2, max_storage_buffers: 4 });
    push_plain(&mut tasks, Step::AllocSet { set: FIRST_SET, kernel: Kernel::Scale });
    push_plain(&mut tasks, Step::AllocSet { set: SECOND_SET, kernel: Kernel::Scale });
    push_bind2(&mut tasks, FIRST_SET, A_BUFFER, C_BUFFER);
    push_bind2(&mut tasks, SECOND_SET, C_BUFFER, D_BUFFER);
    let commands: Vec<Command> = record_two_passes(Kernel::Scale, TWO, HALF);
    push_plain(&mut tasks, Step::Execute { commands });
    push_plain(&mut tasks, Step::Download { buffer: D_BUFFER, count });
    push_plain(&mut tasks, Step::DestroyPool);
    push_plain(&mut tasks, Step::DestroyBuffer { buffer: A_BUFFER });
    push_plain(&mut tasks, Step::DestroyBuffer { buffer: C_BUFFER });
    push_plain(&mut tasks, Step::DestroyBuffer { buffer: D_BUFFER });
    assert(tasks_view(tasks@) =~= plain_tasks(scale_program()));
    tasks
}

/// One of the three computations.
#[derive(Debug, Clone, Copy, PartialEq, Eq, Structural)]
pub enum Check {
    Identity,
    AddSub,
    Scale,
}

impl Check {
    /// What stands before the deviation in the log.
    pub open spec fn label(self) -> Seq<char> {
        match self {
            Check::Identity => "A×I=A: max_err="@,
            Check::AddSub => "(A+B)-B≈A: max_err="@,
            Check::Scale => "A*2/2≈A: max_err="@,
        }
    }

    /// What stands before the error of a computation that could not be run.
    pub open spec fn complaint(self) -> Seq<char> {
        match self {
            Check::Identity => "A×I check failed: "@,
            Check::AddSub => "Add/sub check failed: "@,
            Check::Scale => "Scale check failed: "@,
        }
    }
}

/// The result where a computation could not be run.
pub open spec fn crash_view(message: Seq<char>) -> ResultView {
    ResultView {
        name: "Float32 Precision"@,
        status: StatusView::Error(message),
        score: points(0),
        details: "Precision test gặp sự cố: "@ + message,
        metric_value: "N/A"@,
    }
}

fn crash_result(msg: String) -> (result: BenchmarkResult)
    ensures
        result@ == crash_view(msg@),
        result@.score.wf(),
        result@.score.den <= 100,
{
    let mut details = "Precision test gặp sự cố: ".to_string();
    details.append(msg.as_str());
    BenchmarkResult {
        name: "Float32 Precision".to_string(),
        status: TestStatus::Error(msg),
        score: Score::points(0),
        details,
        metric_value: "N/A".to_string(),
    }
}

/// The result where a computation could not be run.
pub fn report_crash(check: Check, error: &str) -> (result: BenchmarkResult)
    ensures
        result@ == crash_view(check.complaint() + error@),
        result@.score.wf(),
        result@.score.den <= 100,
{
    let mut message: String = match check {
        Check::Identity => "A×I check failed: ".to_string(),
        Check::AddSub => "Add/sub check failed: ".to_string(),
        Check::Scale => "Scale check failed: ".to_string(),
    };
    message.append(error);
    crash_result(message)
}

/// The computations in their order.
pub open spec fn check_at(done: nat) -> Check {
    if done == 0 {
        Check::Identity
    } else if done == 1 {
        Check::AddSub
    } else {
        Check::Scale
    }
}

/// The steps of a computation.
pub open spec fn check_program(check: Check) -> Seq<StepView> {
    match check {
        Check::Identity => single_product(IDENTITY_SIZE),
        Check::AddSub => add_sub_program(),
        Check::Scale => scale_program(),
    }
}

/// How many numbers have to come back of a computation.
pub open spec fn check_count(check: Check) -> nat {
    match check {
        Check::Identity => 65_536,
        _ => 262_144,
    }
}

/// The deviation of a computation: the worst of all its numbers, and infinite
/// where one is missing.
pub open spec fn deviation_of(check: Check, deviations: Seq<Float64>) -> Float64 {
    if deviations.len() == check_count(check) {
        worst_of(deviations)
    } else {
        double(INFINITY)
    }
}

/// The deviation of a computation, of those of all its numbers.
pub fn largest_deviation(check: Check, deviations: &Vec<Float64>) -> (deviation: Float64)
    ensures
        deviation == deviation_of(check, deviations@),
{
    let count: usize = match check {
        Check::Identity => 65_536,
        _ => VECTOR_COUNT,
    };
    if deviations.len() == count {
        worst(deviations)
    } else {
        Float64 { bits: INFINITY }
    }
}

/// How many computations are done, and the largest deviation so far.
#[derive(Debug, Clone, Copy, PartialEq, Eq, Structural)]
pub struct PrecisionTest {
    pub done: u8,
    pub max_error: Float64,
}

/// The points for a deviation.
pub open spec fn error_points(max_error: Float64) -> u64 {
    if double(ERROR_E6).above(max_error) {
        100
    } else if double(ERROR_E5).above(max_error) {
        90
    } else if double(ERROR_E4).above(max_error) {
        75
    } else if double(ERROR_E3).above(max_error) {
        50
    } else if double(ERROR_E1).above(max_error) {
        25
    } else {
        5
    }
}

/// The status for points.
pub open spec fn error_status(reached: u64) -> StatusView {
    if reached >= 75 {
        StatusView::Passed
    } else if reached >= 50 {
        StatusView::Warning
    } else {
        StatusView::Failed
    }
}

/// The result of the test. `error_text` is the largest deviation.
pub open spec fn precision_result(max_error: Float64, error_text: Seq<char>) -> ResultView {
    ResultView {
        name: "Float32 Precision"@,
        status: error_status(error_points(max_error)),
        score: points(error_points(max_error)),
        details: "Max precision error: "@ + error_text,
        metric_value: error_text,
    }
}

fn grade_error(max_error: Float64) -> (reached: u64)
    ensures
        reached == error_points(max_error),
        reached <= 100,
{
    if (Float64 { bits: ERROR_E6 }).is_above(max_error) {
        100
    } else if (Float64 { bits: ERROR_E5 }).is_above(max_error) {
        90
    } else if (Float64 { bits: ERROR_E4 }).is_above(max_error) {
        75
    } else if (Float64 { bits: ERROR_E3 }).is_above(max_error) {
        50
    } else if (Float64 { bits: ERROR_E1 }).is_above(max_error) {
        25
    } else {
        5
    }
}

/// Whether these are the inputs of a computation.
pub open spec fn are_inputs(check: Check, inputs: Seq<Seq<Float32>>) -> bool {
    match check {
        Check::Identity => {
            &&& inputs.len() == 2
            &&& are_scaled(inputs[0], 65_536, IDENTITY_SEED, single(IDENTITY_RANGE))
            &&& inputs[1] == Seq::new(65_536, |i: int| identity_element(256, i))
        },
        Check::AddSub => {
            &&& inputs.len() == 2
            &&& are_scaled(inputs[0], 262_144, ADD_SEED_A, single(ADD_RANGE))
            &&& are_scaled(inputs[1], 262_144, ADD_SEED_B, single(ADD_RANGE))
        },
        Check::Scale => {
            &&& inputs.len() == 1
            &&& are_scaled(inputs[0], 262_144, SCALE_SEED, single(SCALE_RANGE))
        },
    }
}

/// A computation, its inputs, and its tasks. The first input is also what has
/// to come back.
pub struct PrecisionWork {
    pub check: Check,
    pub inputs: Vec<Vec<Float32>>,
    pub tasks: Vec<Task>,
}

impl PrecisionTest {
    /// Before the first computation.
    pub fn new() -> (test: PrecisionTest)
        ensures
            test == (PrecisionTest { done: 0, max_error: double(ZERO) }),
    {
        PrecisionTest { done: 0, max_error: Float64 { bits: ZERO } }
    }

    /// The message of the progress display.
    pub fn stage_message() -> (message: &'static str)
        ensures
            message@ == "Running precision checks..."@,
    {
        "Running precision checks..."
    }

    /// The computation that is next, if any.
    pub fn next(&self) -> (work: Option<PrecisionWork>)
        ensures
            work is Some <==> self.done < 3,
            work matches Some(work) ==> {
                &&& work.check == check_at(self.done as nat)
                &&& tasks_view(work.tasks@) == plain_tasks(check_program(work.check))
                &&& are_inputs(
                    work.check,
                    work.inputs@.map_values(|input: Vec<Float32>| input@),
                )
                &&& match work.check {
                    Check::Identity => {
                        &&& work.inputs.len() == 2
                        &&& are_scaled(work.inputs[0]@, 65_536, IDENTITY_SEED, single(IDENTITY_RANGE))
                        &&& work.inputs[1]@ == Seq::new(65_536, |i: int| identity_element(256, i))
                    },
                    Check::AddSub => {
                        &&& work.inputs.len() == 2
                        &&& are_scaled(work.inputs[0]@, 262_144, ADD_SEED_A, single(ADD_RANGE))
                        &&& are_scaled(work.inputs[1]@, 262_144, ADD_SEED_B, single(ADD_RANGE))
                    },
                    Check::Scale => {
                        &&& work.inputs.len() == 1
                        &&& are_scaled(work.inputs[0]@, 262_144, SCALE_SEED, single(SCALE_RANGE))
                    },
                }
            },
    {
        if self.done == 0 {
            let count: usize = square_count(IDENTITY_SIZE);
            let mut inputs: Vec<Vec<Float32>> = Vec::new();
            inputs.push(lcg_vec_scaled(count, IDENTITY_SEED, Float32 { bits: IDENTITY_RANGE }));
            inputs.push(identity_matrix(IDENTITY_SIZE));
            Some(PrecisionWork { check: Check::Identity, inputs, tasks: check_identity_matmul() })
        } else if self.done == 1 {
            let mut inputs: Vec<Vec<Float32>> = Vec::new();
            inputs.push(lcg_vec_scaled(VECTOR_COUNT, ADD_SEED_A, Float32 { bits: ADD_RANGE }));
            inputs.push(lcg_vec_scaled(VECTOR_COUNT, ADD_SEED_B, Float32 { bits: ADD_RANGE }));
            Some(PrecisionWork { check: Check::AddSub, inputs, tasks: check_add_sub() })
        } else if self.done == 2 {
            let mut inputs: Vec<Vec<Float32>> = Vec::new();
            inputs.push(lcg_vec_scaled(VECTOR_COUNT, SCALE_SEED, Float32 { bits: SCALE_RANGE }));
            Some(PrecisionWork { check: Check::Scale, inputs, tasks: check_scale_mul_div() })
        } else {
            None
        }
    }

    /// The test after a computation with these deviations.
    pub open spec fn after(self, deviations: Seq<Float64>) -> PrecisionTest {
        PrecisionTest {
            done: (self.done + 1) as u8,
            max_error: self.max_error.worse(deviation_of(check_at(self.done as nat), deviations)),
        }
    }

    /// Takes note of the deviations of all numbers of the computation that was
    /// next, and gives the line for the log. `error_text` is the worst of them
    /// as text.
    pub fn record(&mut self, deviations: &Vec<Float64>, error_text: &str) -> (line: String)
        requires
            old(self).done < 3,
        ensures
            *final(self) == old(self).after(deviations@),
            final(self).done == old(self).done + 1,
            final(self).max_error == old(self).max_error.worse(
                deviation_of(check_at(old(self).done as nat), deviations@),
            ),
            line@ == check_at(old(self).done as nat).label() + error_text@,
    {
        let check: Check = if self.done == 0 {
            Check::Identity
        } else if self.done == 1 {
            Check::AddSub
        } else {
            Check::Scale
        };
        self.max_error = self.max_error.or_worse(largest_deviation(check, deviations));
        let mut line: String = if self.done == 0 {
            "A×I=A: max_err=".to_string()
        } else if self.done == 1 {
            "(A+B)-B≈A: max_err=".to_string()
        } else {
            "A*2/2≈A: max_err=".to_string()
        };
        line.append(error_text);
        self.done = self.done + 1;
        line
    }

    /// The result of the test. `error_text` is the largest deviation as text.
    pub fn result(&self, error_text: &str) -> (result: BenchmarkResult)
        ensures
            result@ == precision_result(self.max_error, error_text@),
            result@.score.wf(),
            result@.score.den <= 100,
    {
        let reached: u64 = grade_error(self.max_error);
        let status: TestStatus = if reached >= 75 {
            TestStatus::Passed
        } else if reached >= 50 {
            TestStatus::Warning
        } else {
            TestStatus::Failed
        };
        let mut details = "Max precision error: ".to_string();
        details.append(error_text);
        BenchmarkResult {
            name: "Float32 Precision".to_string(),
            status,
            score: Score::points(reached),
            details,
            metric_value: error_text.to_string(),
        }
    }
}

/// A number that comes back as no number, or not at all, earns the fewest
/// points and fails, whatever the other computations bring.
pub proof fn law_lost_numbers_fail(
    before: Float64,
    check: Check,
    deviations: Seq<Float64>,
    error_text: Seq<char>,
)
    requires
        deviations.len() != check_count(check) || exists|i: int|
            0 <= i < deviations.len() && (#[trigger] deviations[i]).nan(),
    ensures
        precision_result(before.worse(deviation_of(check, deviations)), error_text).score == points(
            5,
        ),
        precision_result(
            before.worse(deviation_of(check, deviations)),
            error_text,
        ).status is Failed,
{
    law_worst_error_decides(deviations, double(INFINITY));
}

/// A larger deviation never earns more points.
pub proof fn law_less_exact_scores_no_more(small: Float64, large: Float64)
    requires
        large.reaches(small),
    ensures
        error_points(large) <= error_points(small),
{
}

} // verus!
