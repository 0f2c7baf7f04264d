//! Memory bandwidth.
//!
//! A chain of additions `C = A + B`, back and forth between two buffers, keeps
//! the memory bus busy: each addition reads two buffers and writes one. After
//! every run the whole result is compared with the number that it has to be.
use vstd::prelude::*;

use super::{f32_bytes, BenchmarkResult, PushCount1f, TestStatus};
#[allow(unused_imports)]
use super::{points, ResultView, StatusView};
use crate::compute::{Binding, Kernel};
#[allow(unused_imports)]
use crate::float_bits::double;
use crate::float_bits::{Float32, Float64, INFINITY, ZERO};
use crate::program::{
    cmd_global_compute_barrier, cmd_transfer_barrier, push_plain, push_step, push_task,
    record_dispatch_1d, Command, Expect, PushData, Step, Task,
};
#[allow(unused_imports)]
use crate::program::{
    compute_barrier, dispatch_1d, plain, plain_tasks, steps_view, tasks_view, transfer_barrier,
    StepView, TaskView,
};
use crate::score::{round, Score};
#[allow(unused_imports)]
use crate::score::rounded;
use crate::session::Event;
#[allow(unused_imports)]
use crate::text::decimal;
use crate::text::push_decimal;

verus! {

/// How many additions are chained.
pub const OPS: usize = 8;

/// How many runs are timed.
pub const RUNS: usize = 4;

/// The places of the two buffers that take turns, of the buffer that is added,
/// and of the mismatch counter.
pub const A_BUFFER: usize = 0;

pub const B_BUFFER: usize = 1;

pub const C_BUFFER: usize = 2;

pub const RESULT_BUFFER: usize = 3;

/// The places of the descriptor sets: of the fill kernel, of the verify
/// kernel, of the addition from A to C, and of the addition from C to A.
pub const FILL_SET: usize = 0;

pub const VERIFY_SET: usize = 1;

pub const AC_SET: usize = 2;

pub const CA_SET: usize = 3;

/// How many threads a group of the element-wise kernels has.
pub const LOCAL_SIZE: u32 = 256;

/// The bit patterns of 1, of 0.25, and of what eight additions of 0.25 to 1
/// give.
pub const START_VALUE: u32 = 0x3F80_0000;

pub const ADDED_VALUE: u32 = 0x3E80_0000;

pub const EXPECTED_VALUE: u32 = 0x4040_0000;

/// The bit patterns of the rates, in GB/s, that earn more points.
pub const RATE_400: u64 = 0x4079_0000_0000_0000;

pub const RATE_200: u64 = 0x4069_0000_0000_0000;

pub const RATE_100: u64 = 0x4059_0000_0000_0000;

pub const RATE_50: u64 = 0x4049_0000_0000_0000;

pub const RATE_10: u64 = 0x4024_0000_0000_0000;

/// The bit pattern of 20: a larger spread, in per cent, is unstable.
pub const SPREAD_LIMIT: u64 = 0x4034_0000_0000_0000;

/// The rows of the square that a buffer is as large as: larger where there
/// are at least four gigabytes of memory. Where nothing is known of the
/// memory, two are taken for granted.
pub open spec fn buffer_rows(dedicated_vram_mb: Option<u64>) -> usize {
    if (match dedicated_vram_mb {
        Some(mb) => mb,
        None => 2048,
    }) >= 4096 {
        8192
    } else {
        4096
    }
}

/// The rows of the square that a buffer is as large as.
pub fn choose_rows(dedicated_vram_mb: Option<u64>) -> (rows: usize)
    ensures
        rows == buffer_rows(dedicated_vram_mb),
        buffers_fit(rows),
{
    let mb: u64 = match dedicated_vram_mb {
        Some(mb) => mb,
        None => 2048,
    };
    if mb >= 4096 {
        8192
    } else {
        4096
    }
}

/// Whether buffers of so many rows can be handled: they are not empty, their
/// bytes can be counted, and their elements divided into groups.
pub open spec fn buffers_fit(rows: usize) -> bool {
    rows > 0 && rows * rows * 4 <= usize::MAX && rows * rows + 255 <= u32::MAX
}

/// The message of the progress display.
pub open spec fn stage_text(rows: usize) -> Seq<char> {
    "Buffer "@ + decimal(rows as nat) + "×"@ + decimal(rows as nat) + " f32 = "@ + decimal(
        rounded((rows * rows * 4) as nat, 1_048_576),
    ) + " MB, chain "@ + decimal(OPS as nat) + " ops × "@ + decimal(RUNS as nat) + " runs..."@
}

/// The message of the progress display.
pub fn stage_message(rows: usize) -> (message: String)
    requires
        rows * rows * 4 <= usize::MAX,
    ensures
        message@ == stage_text(rows),
{
    let bytes: u64 = f32_bytes(element_count(rows));
    let mut message = "Buffer ".to_string();
    push_decimal(&mut message, rows as u128);
    message.append("×");
    push_decimal(&mut message, rows as u128);
    message.append(" f32 = ");
    push_decimal(&mut message, round(bytes as u128, 1_048_576));
    message.append(" MB, chain ");
    push_decimal(&mut message, OPS as u128);
    message.append(" ops × ");
    push_decimal(&mut message, RUNS as u128);
    message.append(" runs...");
    message
}

/// How many numbers a buffer of so many rows holds.
pub open spec fn numbers_in(rows: usize) -> int {
    rows * rows
}

/// How many numbers a buffer of so many rows holds.
pub fn element_count(rows: usize) -> (count: usize)
    requires
        rows * rows * 4 <= usize::MAX,
    ensures
        count == numbers_in(rows),
        count == rows * rows,
        count * 4 <= usize::MAX,
{
    assert(rows * rows <= rows * rows * 4) by (nonlinear_arith)
        requires
            rows >= 0,
    ;
    rows * rows
}

/// The bindings of an addition: what is read, what is added, what is written.
pub open spec fn add_bindings(from: usize, to: usize, bytes: u64) -> Seq<Binding> {
    seq![
        Binding { binding: 0, buffer: from, bytes },
        Binding { binding: 1, buffer: B_BUFFER, bytes },
        Binding { binding: 2, buffer: to, bytes },
    ]
}

/// The steps before the first fill.
pub open spec fn setup_steps(bytes: u64) -> Seq<StepView> {
    seq![
        StepView::AllocBuffer { buffer: A_BUFFER, bytes },
        StepView::AllocBuffer { buffer: B_BUFFER, bytes },
        StepView::AllocBuffer { buffer: C_BUFFER, bytes },
        StepView::AllocBuffer { buffer: RESULT_BUFFER, bytes: 4 },
        StepView::CreatePool { max_sets: 4, max_storage_buffers: 9 },
        StepView::AllocSet { set: FILL_SET, kernel: Kernel::Fill },
        StepView::AllocSet { set: VERIFY_SET, kernel: Kernel::Verify },
        StepView::AllocSet { set: AC_SET, kernel: Kernel::VectorAdd },
        StepView::AllocSet { set: CA_SET, kernel: Kernel::VectorAdd },
        StepView::Bind { set: AC_SET, bindings: add_bindings(A_BUFFER, C_BUFFER, bytes) },
        StepView::Bind { set: CA_SET, bindings: add_bindings(C_BUFFER, A_BUFFER, bytes) },
    ]
}

/// Releases everything.
pub open spec fn release_program() -> Seq<StepView> {
    seq![
        StepView::DestroyPool,
        StepView::DestroyBuffer { buffer: A_BUFFER },
        StepView::DestroyBuffer { buffer: B_BUFFER },
        StepView::DestroyBuffer { buffer: C_BUFFER },
        StepView::DestroyBuffer { buffer: RESULT_BUFFER },
    ]
}

/// A task after which everything is released where the device fails.
pub open spec fn guarded(step: StepView, round: usize) -> TaskView {
    TaskView { on_failure: release_program(), round, ..plain(step) }
}

/// The push constants of an element-wise kernel.
pub open spec fn push_of(count: usize, value: u32) -> PushData {
    PushData::Count1f(PushCount1f { count: count as u32, value: Float32 { bits: value } })
}

/// Binds a buffer to the fill kernel and fills it.
pub open spec fn fill_steps(buffer: usize, count: usize, value: u32) -> Seq<StepView> {
    seq![
        StepView::Bind {
            set: FILL_SET,
            bindings: seq![Binding { binding: 0, buffer, bytes: (count * 4) as u64 }],
        },
        StepView::Execute {
            commands: dispatch_1d(
                Kernel::Fill,
                FILL_SET,
                push_of(count, value),
                count as u32,
                LOCAL_SIZE,
            ),
        },
    ]
}

/// The set of an addition of the chain.
pub open spec fn op_set(op: nat) -> usize {
    if op % 2 == 0 {
        AC_SET
    } else {
        CA_SET
    }
}

/// The first `ops` additions of the chain, each with a barrier after it.
pub open spec fn chain(count: usize, ops: nat) -> Seq<Command>
    decreases ops,
{
    if ops == 0 {
        seq![]
    } else {
        let last = (ops - 1) as nat;
        chain(count, last) + dispatch_1d(
            Kernel::VectorAdd,
            op_set(last),
            push_of(count, START_VALUE),
            count as u32,
            LOCAL_SIZE,
        ) + seq![compute_barrier()]
    }
}

/// Runs the chain.
pub open spec fn chain_step(count: usize) -> StepView {
    StepView::Execute { commands: chain(count, OPS as nat) }
}

/// Binds the final buffer and the mismatch counter to the verify kernel.
pub open spec fn verify_bind(count: usize) -> StepView {
    StepView::Bind {
        set: VERIFY_SET,
        bindings: seq![
            Binding { binding: 0, buffer: A_BUFFER, bytes: (count * 4) as u64 },
            Binding { binding: 1, buffer: RESULT_BUFFER, bytes: 4 },
        ],
    }
}

/// Resets the mismatch counter and compares the final buffer.
pub open spec fn verify_step(count: usize) -> StepView {
    StepView::Execute {
        commands: seq![
            Command::FillBuffer { buffer: RESULT_BUFFER, offset: 0, size: 4, word: 0 },
            transfer_barrier(),
        ] + dispatch_1d(
            Kernel::Verify,
            VERIFY_SET,
            push_of(count, EXPECTED_VALUE),
            count as u32,
            LOCAL_SIZE,
        ),
    }
}

/// The tasks of a run: a fresh start, the timed chain, a probe, and the
/// comparison of the whole buffer. Where the device fails, everything is
/// released, but not where the counter cannot be read; where the result is
/// wrong, everything is released.
pub open spec fn run_program(count: usize, run: usize) -> Seq<TaskView> {
    let fill = fill_steps(A_BUFFER, count, START_VALUE);
    seq![
        guarded(fill[0], run),
        guarded(fill[1], run),
        guarded(StepView::StartClock, run),
        guarded(chain_step(count), run),
        guarded(StepView::StopClock, run),
        TaskView {
            expect: Expect::FloatIs(Float32 { bits: EXPECTED_VALUE }),
            on_mismatch: release_program(),
            ..guarded(StepView::ReadFloat { buffer: A_BUFFER, offset: 0 }, run)
        },
        guarded(verify_bind(count), run),
        guarded(verify_step(count), run),
        TaskView {
            expect: Expect::WordIs(0),
            on_failure: seq![],
            on_mismatch: release_program(),
            ..guarded(StepView::ReadWord { buffer: RESULT_BUFFER, offset: 0 }, run)
        },
    ]
}

/// The tasks of the first runs.
pub open spec fn runs_program(count: usize, runs: nat) -> Seq<TaskView>
    decreases runs,
{
    if runs == 0 {
        seq![]
    } else {
        runs_program(count, (runs - 1) as nat) + run_program(count, (runs - 1) as usize)
    }
}

/// The tasks between the setup and the first run: fill both operands, and run
/// the chain once to warm up.
pub open spec fn warm_program(count: usize) -> Seq<TaskView> {
    let fill_a = fill_steps(A_BUFFER, count, START_VALUE);
    let fill_b = fill_steps(B_BUFFER, count, ADDED_VALUE);
    seq![
        guarded(fill_a[0], 0),
        guarded(fill_a[1], 0),
        guarded(fill_b[0], 0),
        guarded(fill_b[1], 0),
        guarded(chain_step(count), 0),
    ]
}

/// The whole measurement.
pub open spec fn bandwidth_program(count: usize) -> Seq<TaskView> {
    plain_tasks(setup_steps((count * 4) as u64)) + warm_program(count) + runs_program(
        count,
        RUNS as nat,
    ) + plain_tasks(release_program())
}

fn release_steps() -> (steps: Vec<Step>)
    ensures
        steps_view(steps@) == release_program(),
{
    let mut steps: Vec<Step> = Vec::new();
    push_step(&mut steps, Step::DestroyPool);
    push_step(&mut steps, Step::DestroyBuffer { buffer: A_BUFFER });
    push_step(&mut steps, Step::DestroyBuffer { buffer: B_BUFFER });
    push_step(&mut steps, Step::DestroyBuffer { buffer: C_BUFFER });
    push_step(&mut steps, Step::DestroyBuffer { buffer: RESULT_BUFFER });
    assert(steps_view(steps@) =~= release_program());
    steps
}

fn push_guarded(tasks: &mut Vec<Task>, step: Step, round: usize)
    ensures
        tasks_view(final(tasks)@) == tasks_view(old(tasks)@).push(guarded(step@, round)),
{
    let task = Task {
        step,
        expect: Expect::Success,
        on_failure: release_steps(),
        on_mismatch: Vec::new(),
        round,
    };
    assert(task@.on_mismatch =~= seq![]);
    assert(task@ == guarded(step@, round));
    push_task(tasks, task);
}

fn push_setup(tasks: &mut Vec<Task>, bytes: u64)
    ensures
        tasks_view(final(tasks)@) == tasks_view(old(tasks)@) + plain_tasks(setup_steps(bytes)),
{
    let ghost before = tasks_view(tasks@);
    push_plain(tasks, Step::AllocBuffer { buffer: A_BUFFER, bytes });
    push_plain(tasks, Step::AllocBuffer { buffer: B_BUFFER, bytes });
    push_plain(tasks, Step::AllocBuffer { buffer: C_BUFFER, bytes });
    push_plain(tasks, Step::AllocBuffer { buffer: RESULT_BUFFER, bytes: 4 });
    push_plain(tasks, Step::CreatePool { max_sets: 4, max_storage_buffers: 9 });
    push_plain(tasks, Step::AllocSet { set: FILL_SET, kernel: Kernel::Fill });
    push_plain(tasks, Step::AllocSet { set: VERIFY_SET, kernel: Kernel::Verify });
    push_plain(tasks, Step::AllocSet { set: AC_SET, kernel: Kernel::VectorAdd });
    push_plain(tasks, Step::AllocSet { set: CA_SET, kernel: Kernel::VectorAdd });
    let ac: Vec<Binding> = vec![
        Binding { binding: 0, buffer: A_BUFFER, bytes },
        Binding { binding: 1, buffer: B_BUFFER, bytes },
        Binding { binding: 2, buffer: C_BUFFER, bytes },
    ];
    let ca: Vec<Binding> = vec![
        Binding { binding: 0, buffer: C_BUFFER, bytes },
        Binding { binding: 1, buffer: B_BUFFER, bytes },
        Binding { binding: 2, buffer: A_BUFFER, bytes },
    ];
    assert(ac@ =~= add_bindings(A_BUFFER, C_BUFFER, bytes));
    assert(ca@ =~= add_bindings(C_BUFFER, A_BUFFER, bytes));
    push_plain(tasks, Step::Bind { set: AC_SET, bindings: ac });
    push_plain(tasks, Step::Bind { set: CA_SET, bindings: ca });
    assert(tasks_view(tasks@) =~= before + plain_tasks(setup_steps(bytes)));
}

fn push_fill(tasks: &mut Vec<Task>, buffer: usize, count: usize, value: u32, round: usize)
    requires
        count * 4 <= usize::MAX,
        count + 255 <= u32::MAX,
    ensures
        tasks_view(final(tasks)@) == tasks_view(old(tasks)@).push(
            guarded(fill_steps(buffer, count, value)[0], round),
        ).push(guarded(fill_steps(buffer, count, value)[1], round)),
{
    let bindings: Vec<Binding> = vec![Binding { binding: 0, buffer, bytes: f32_bytes(count) }];
    let bind = Step::Bind { set: FILL_SET, bindings };
    assert(bind@->bindings =~= fill_steps(buffer, count, value)[0]->bindings);
    push_guarded(tasks, bind, round);
    let data: PushData = PushData::Count1f(
        PushCount1f { count: count as u32, value: Float32 { bits: value } },
    );
    let mut commands: Vec<Command> = Vec::new();
    record_dispatch_1d(&mut commands, Kernel::Fill, FILL_SET, data, count as u32, LOCAL_SIZE);
    let fill = Step::Execute { commands };
    assert(fill@->commands =~= fill_steps(buffer, count, value)[1]->commands);
    push_guarded(tasks, fill, round);
}

fn push_chain(tasks: &mut Vec<Task>, count: usize, round: usize)
    requires
        count + 255 <= u32::MAX,
    ensures
        tasks_view(final(tasks)@) == tasks_view(old(tasks)@).push(
            guarded(chain_step(count), round),
        ),
{
    let data: PushData = PushData::Count1f(
        PushCount1f { count: count as u32, value: Float32 { bits: START_VALUE } },
    );
    let mut commands: Vec<Command> = Vec::new();
    let mut op: usize = 0;
    while op < OPS
        invariant
            op <= OPS,
            count + 255 <= u32::MAX,
            data == push_of(count, START_VALUE),
            commands@ == chain(count, op as nat),
        decreases OPS - op,
    {
        let set: usize = if op % 2 == 0 {
            AC_SET
        } else {
            CA_SET
        };
        record_dispatch_1d(&mut commands, Kernel::VectorAdd, set, data, count as u32, LOCAL_SIZE);
        cmd_global_compute_barrier(&mut commands);
        op = op + 1;
        assert(commands@ =~= chain(count, op as nat));
    }
    push_guarded(tasks, Step::Execute { commands }, round);
}

fn push_run(tasks: &mut Vec<Task>, count: usize, run: usize)
    requires
        count * 4 <= usize::MAX,
        count + 255 <= u32::MAX,
    ensures
        tasks_view(final(tasks)@) == tasks_view(old(tasks)@) + run_program(count, run),
{
    let ghost before = tasks_view(tasks@);
    push_fill(tasks, A_BUFFER, count, START_VALUE, run);
    push_guarded(tasks, Step::StartClock, run);
    push_chain(tasks, count, run);
    push_guarded(tasks, Step::StopClock, run);
    push_task(
        tasks,
        Task {
            step: Step::ReadFloat { buffer: A_BUFFER, offset: 0 },
            expect: Expect::FloatIs(Float32 { bits: EXPECTED_VALUE }),
            on_failure: release_steps(),
            on_mismatch: release_steps(),
            round: run,
        },
    );
    let bindings: Vec<Binding> = vec![
        Binding { binding: 0, buffer: A_BUFFER, bytes: f32_bytes(count) },
        Binding { binding: 1, buffer: RESULT_BUFFER, bytes: 4 },
    ];
    let bind = Step::Bind { set: VERIFY_SET, bindings };
    assert(bind@->bindings =~= verify_bind(count)->bindings);
    push_guarded(tasks, bind, run);
    let data: PushData = PushData::Count1f(
        PushCount1f { count: count as u32, value: Float32 { bits: EXPECTED_VALUE } },
    );
    let mut commands: Vec<Command> = Vec::new();
    commands.push(Command::FillBuffer { buffer: RESULT_BUFFER, offset: 0, size: 4, word: 0 });
    cmd_transfer_barrier(&mut commands);
    record_dispatch_1d(&mut commands, Kernel::Verify, VERIFY_SET, data, count as u32, LOCAL_SIZE);
    let verify = Step::Execute { commands };
    assert(verify@->commands =~= verify_step(count)->commands);
    push_guarded(tasks, verify, run);
    let read = Task {
        step: Step::ReadWord { buffer: RESULT_BUFFER, offset: 0 },
        expect: Expect::WordIs(0),
        on_failure: Vec::new(),
        on_mismatch: release_steps(),
        round: run,
    };
    assert(read@.on_failure =~= seq![]);
    push_task(tasks, read);
    assert(tasks_view(tasks@) =~= before + run_program(count, run));
}

/// The tasks of the whole measurement on buffers of so many rows.
pub fn bandwidth_tasks(rows: usize) -> (tasks: Vec<Task>)
    requires
        buffers_fit(rows),
    ensures
        tasks_view(tasks@) == bandwidth_program(numbers_in(rows) as usize),
        tasks_view(tasks@) == bandwidth_program((rows * rows) as usize),
{
    let count: usize = element_count(rows);
    let mut tasks: Vec<Task> = Vec::new();
    push_setup(&mut tasks, f32_bytes(count));
    push_fill(&mut tasks, A_BUFFER, count, START_VALUE, 0);
    push_fill(&mut tasks, B_BUFFER, count, ADDED_VALUE, 0);
    push_chain(&mut tasks, count, 0);
    let ghost head = plain_tasks(setup_steps((count * 4) as u64)) + warm_program(count);
    assert(tasks_view(tasks@) =~= head + runs_program(count, 0));
    let mut run: usize = 0;
    while run < RUNS
        invariant
            run <= RUNS,
            count * 4 <= usize::MAX,
            count + 255 <= u32::MAX,
            tasks_view(tasks@) == head + runs_program(count, run as nat),
        decreases RUNS - run,
    {
        push_run(&mut tasks, count, run);
        run = run + 1;
        assert(tasks_view(tasks@) =~= head + runs_program(count, run as nat));
    }
    push_plain(&mut tasks, Step::DestroyPool);
    push_plain(&mut tasks, Step::DestroyBuffer { buffer: A_BUFFER });
    push_plain(&mut tasks, Step::DestroyBuffer { buffer: B_BUFFER });
    push_plain(&mut tasks, Step::DestroyBuffer { buffer: C_BUFFER });
    push_plain(&mut tasks, Step::DestroyBuffer { buffer: RESULT_BUFFER });
    assert(tasks_view(tasks@) =~= bandwidth_program(count));
    tasks
}

/// Why there is no bandwidth: the device computed or kept wrong data, or it
/// failed.
#[derive(Debug)]
pub enum BandwidthError {
    Correctness(String),
    Vulkan(String),
}

/// Why there is no bandwidth, with the text.
pub enum ErrorView {
    Correctness(Seq<char>),
    Vulkan(Seq<char>),
}

impl View for BandwidthError {
    type V = ErrorView;

    open spec fn view(&self) -> ErrorView {
        match self {
            BandwidthError::Correctness(message) => ErrorView::Correctness(message@),
            BandwidthError::Vulkan(message) => ErrorView::Vulkan(message@),
        }
    }
}

/// The error of a measurement that was stopped by an event. `text` is the
/// device's error, or the number that was read.
pub open spec fn stop_cause(round: usize, event: Event, text: Seq<char>) -> ErrorView {
    match event {
        Event::Float(_) => ErrorView::Correctness(
            "Phép cộng cho kết quả sai: run "@ + decimal(round as nat) + ", got "@ + text
                + ", expected 3"@,
        ),
        Event::Word(mismatches) => ErrorView::Correctness(
            "Đọc lại VRAM sai lệch dữ liệu (mismatches="@ + decimal(mismatches as nat)
                + ") — nghi ngờ VRAM hỏng"@,
        ),
        _ => ErrorView::Vulkan(text),
    }
}

/// The error of a measurement that was stopped in a round by an event.
/// `text` is the device's error, or the number that was read.
pub fn stop_error(round: usize, event: Event, text: &str) -> (error: BandwidthError)
    ensures
        error@ == stop_cause(round, event, text@),
{
    match event {
        Event::Float(_) => {
            let mut message = "Phép cộng cho kết quả sai: run ".to_string();
            push_decimal(&mut message, round as u128);
            message.append(", got ");
            message.append(text);
            message.append(", expected 3");
            BandwidthError::Correctness(message)
        },
        Event::Word(mismatches) => {
            let mut message = "Đọc lại VRAM sai lệch dữ liệu (mismatches=".to_string();
            push_decimal(&mut message, mismatches as u128);
            message.append(") — nghi ngờ VRAM hỏng");
            BandwidthError::Correctness(message)
        },
        _ => BandwidthError::Vulkan(text.to_string()),
    }
}

/// The best and the worst rate so far, in GB/s.
#[derive(Debug, Clone, Copy, PartialEq, Eq, Structural)]
pub struct BandwidthRates {
    pub best: Float64,
    pub worst: Float64,
}

impl BandwidthRates {
    /// No rate so far.
    pub fn new() -> (rates: BandwidthRates)
        ensures
            rates == (BandwidthRates { best: double(ZERO), worst: double(INFINITY) }),
    {
        BandwidthRates { best: Float64 { bits: ZERO }, worst: Float64 { bits: INFINITY } }
    }

    /// The rates after one more run.
    pub open spec fn after(self, rate: Float64) -> BandwidthRates {
        BandwidthRates { best: self.best.larger(rate), worst: self.worst.smaller(rate) }
    }

    /// Takes note of the rate of a run.
    pub fn record(&mut self, rate: Float64)
        ensures
            *final(self) == old(self).after(rate),
    {
        self.best = self.best.max(rate);
        self.worst = self.worst.min(rate);
    }
}

/// The points for a rate in GB/s.
pub open spec fn rate_points(rate: Float64) -> u64 {
    if rate.reaches(double(RATE_400)) {
        100
    } else if rate.reaches(double(RATE_200)) {
        85
    } else if rate.reaches(double(RATE_100)) {
        70
    } else if rate.reaches(double(RATE_50)) {
        55
    } else if rate.reaches(double(RATE_10)) {
        35
    } else {
        15
    }
}

/// Whether the rates of the runs differ too much.
pub open spec fn unstable(spread: Float64) -> bool {
    spread.above(double(SPREAD_LIMIT))
}

/// The points for a rate and a spread: an unstable rate earns at most 65.
pub open spec fn bandwidth_points(rate: Float64, spread: Float64) -> u64 {
    if unstable(spread) && rate_points(rate) > 65 {
        65
    } else {
        rate_points(rate)
    }
}

/// The result of a measurement: of its best rate and the spread of its rates.
/// The texts are the rate in whole GB/s, the rate with a decimal place, and
/// the spread.
pub open spec fn measured_result(
    best: Float64,
    spread: Float64,
    whole_text: Seq<char>,
    rate_text: Seq<char>,
    spread_text: Seq<char>,
) -> ResultView {
    let reached = bandwidth_points(best, spread);
    ResultView {
        name: "Memory Bandwidth"@,
        status: if reached >= 70 && !unstable(spread) {
            StatusView::Passed
        } else if reached >= 40 {
            StatusView::Warning
        } else {
            StatusView::Failed
        },
        score: points(reached),
        details: "Bandwidth: "@ + whole_text + " GB/s (best of "@ + decimal(RUNS as nat)
            + " runs, dao động "@ + spread_text + "%)"@ + (if unstable(spread) {
            " — bất ổn giữa các lần chạy"@
        } else {
            ""@
        }),
        metric_value: rate_text + " GB/s"@,
    }
}

fn grade_rate(rate: Float64) -> (reached: u64)
    ensures
        reached == rate_points(rate),
        reached <= 100,
{
    if rate.is_at_least(Float64 { bits: RATE_400 }) {
        100
    } else if rate.is_at_least(Float64 { bits: RATE_200 }) {
        85
    } else if rate.is_at_least(Float64 { bits: RATE_100 }) {
        70
    } else if rate.is_at_least(Float64 { bits: RATE_50 }) {
        55
    } else if rate.is_at_least(Float64 { bits: RATE_10 }) {
        35
    } else {
        15
    }
}

/// The result of a measurement that went through. `spread` is the difference
/// of the best and the worst rate in per cent of the best.
pub fn report_rates(
    best: Float64,
    spread: Float64,
    whole_text: &str,
    rate_text: &str,
    spread_text: &str,
) -> (result: BenchmarkResult)
    ensures
        result@ == measured_result(best, spread, whole_text@, rate_text@, spread_text@),
        result@.score.wf(),
        result@.score.den <= 100,
{
    let shaky: bool = spread.is_above(Float64 { bits: SPREAD_LIMIT });
    let rate: u64 = grade_rate(best);
    let reached: u64 = if shaky && rate > 65 {
        65
    } else {
        rate
    };
    let status: TestStatus = if reached >= 70 && !shaky {
        TestStatus::Passed
    } else if reached >= 40 {
        TestStatus::Warning
    } else {
        TestStatus::Failed
    };
    let mut details = "Bandwidth: ".to_string();
    details.append(whole_text);
    details.append(" GB/s (best of ");
    push_decimal(&mut details, RUNS as u128);
    details.append(" runs, dao động ");
    details.append(spread_text);
    details.append("%)");
    details.append(
        if shaky {
            " — bất ổn giữa các lần chạy"
        } else {
            ""
        },
    );
    let mut metric_value = rate_text.to_string();
    metric_value.append(" GB/s");
    BenchmarkResult {
        name: "Memory Bandwidth".to_string(),
        status,
        score: Score::points(reached),
        details,
        metric_value,
    }
}

/// The result of a measurement that was stopped.
pub open spec fn error_result(error: ErrorView) -> ResultView {
    match error {
        ErrorView::Correctness(message) => ResultView {
            name: "Memory Bandwidth"@,
            status: StatusView::Failed,
            score: points(10),
            details: message,
            metric_value: "INVALID"@,
        },
        ErrorView::Vulkan(message) => ResultView {
            name: "Memory Bandwidth"@,
            status: StatusView::Error(message),
            score: points(0),
            details: "Không thể đo bandwidth: "@ + message,
            metric_value: "N/A"@,
        },
    }
}

/// The result of a measurement that was stopped.
pub fn report_error(error: BandwidthError) -> (result: BenchmarkResult)
    ensures
        result@ == error_result(error@),
        result@.score.wf(),
        result@.score.den <= 100,
{
    match error {
        BandwidthError::Correctness(message) => BenchmarkResult {
            name: "Memory Bandwidth".to_string(),
            status: TestStatus::Failed,
            score: Score::points(10),
            details: message,
            metric_value: "INVALID".to_string(),
        },
        BandwidthError::Vulkan(message) => {
            let mut details = "Không thể đo bandwidth: ".to_string();
            details.append(message.as_str());
            BenchmarkResult {
                name: "Memory Bandwidth".to_string(),
                status: TestStatus::Error(message),
                score: Score::points(0),
                details,
                metric_value: "N/A".to_string(),
            }
        },
    }
}

/// A higher rate never earns fewer points at the same spread, and unstable
/// rates do not pass.
pub proof fn law_faster_scores_no_less(slow: Float64, fast: Float64, spread: Float64)
    requires
        fast.reaches(slow),
    ensures
        bandwidth_points(slow, spread) <= bandwidth_points(fast, spread),
        forall|whole: Seq<char>, rate: Seq<char>, text: Seq<char>|
            unstable(spread) ==> !(#[trigger] measured_result(
                fast,
                spread,
                whole,
                rate,
                text,
            ).status is Passed),
{
}

} // verus!
