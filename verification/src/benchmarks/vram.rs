//! VRAM capacity and integrity.
//!
//! Memory is allocated chunk by chunk. Each chunk is filled with a pattern and
//! compared with it on the device, and all chunks stay alive until an
//! allocation fails: that point is the memory that is really there.
use vstd::prelude::*;

use super::{f32_bytes, BenchmarkResult, PushCount1f, TestStatus, VRAM_PATTERNS};
#[allow(unused_imports)]
use super::{points, ResultView, StatusView};
use crate::compute::{Binding, Kernel};
use crate::float_bits::Float32;
use crate::program::{
    cmd_global_compute_barrier, cmd_transfer_barrier, push_plain, push_step, push_task,
    record_dispatch_1d, Command, Expect, PushData, Step, Task,
};
#[allow(unused_imports)]
use crate::program::{
    compute_barrier, dispatch_1d, plain, steps_view, tasks_view, transfer_barrier, StepView,
    TaskView,
};
use crate::score::Score;
use crate::session::Event;
use crate::text::{join, push_decimal};
#[allow(unused_imports)]
use crate::text::{decimal, joined, texts};

verus! {

/// The size of a chunk in megabytes.
pub const CHUNK_MB: u64 = 128;

/// How many single-precision numbers a chunk holds.
pub const CHUNK_F32_COUNT: usize = 33_554_432;

/// The place of the buffer that holds the mismatch counter.
pub const RESULT_BUFFER: usize = 0;

/// The place of the descriptor set of the fill kernel.
pub const FILL_SET: usize = 0;

/// The place of the descriptor set of the verify kernel.
pub const VERIFY_SET: usize = 1;

/// How many threads a group of the element-wise kernels has.
pub const LOCAL_SIZE: u32 = 256;

/// How many chunks the test tries at most: those that fit into the nominal
/// memory and one gigabyte more, or into sixteen gigabytes where nothing is
/// known of the memory; at least one.
pub open spec fn chunk_limit(dedicated_vram_mb: Option<u64>) -> nat {
    let target = match dedicated_vram_mb {
        Some(nominal) => nominal as nat + 1024,
        None => 16 * 1024,
    };
    if target / 128 > 0 {
        target / 128
    } else {
        1
    }
}

fn total_chunks(dedicated_vram_mb: Option<u64>) -> (total: u64)
    requires
        dedicated_vram_mb matches Some(nominal) ==> nominal + 1024 <= u64::MAX,
    ensures
        total == chunk_limit(dedicated_vram_mb),
{
    let target: u64 = match dedicated_vram_mb {
        Some(nominal) => nominal + 1024,
        None => 16 * 1024,
    };
    let total: u64 = target / CHUNK_MB;
    if total > 0 {
        total
    } else {
        1
    }
}

/// The pattern of a chunk: the patterns go round.
pub open spec fn chunk_pattern(index: nat) -> Float32 {
    Float32 { bits: VRAM_PATTERNS[(index % 8) as int] }
}

/// Neighbouring chunks carry different patterns.
pub proof fn law_neighbouring_chunks_differ(index: nat)
    ensures
        chunk_pattern(index) != chunk_pattern(index + 1),
        !chunk_pattern(index).equals(chunk_pattern(index + 1)),
{
    let place = index % 8;
    assert((index + 1) % 8 == if place == 7 {
        0
    } else {
        place + 1
    });
}

/// Every pattern is a finite number other than zero.
pub proof fn lemma_patterns_are_finite(index: nat)
    ensures
        chunk_pattern(index).finite(),
        chunk_pattern(index).equals(chunk_pattern(index)),
        chunk_pattern(index).rank() != 0,
{
}

/// The buffer of a chunk: the places follow the result buffer.
pub open spec fn chunk_buffer(index: nat) -> usize {
    (index + 1) as usize
}

/// The tasks before the first chunk, with what is to be released where one of
/// them fails.
pub open spec fn setup_program() -> Seq<TaskView> {
    let drop_result = StepView::DestroyBuffer { buffer: RESULT_BUFFER };
    seq![
        plain(StepView::AllocBuffer { buffer: RESULT_BUFFER, bytes: 4 }),
        TaskView {
            on_failure: seq![drop_result],
            ..plain(StepView::CreatePool { max_sets: 2, max_storage_buffers: 3 })
        },
        TaskView {
            on_failure: seq![StepView::DestroyPool, drop_result],
            ..plain(StepView::AllocSet { set: FILL_SET, kernel: Kernel::Fill })
        },
        TaskView {
            on_failure: seq![StepView::DestroyPool, drop_result],
            ..plain(StepView::AllocSet { set: VERIFY_SET, kernel: Kernel::Verify })
        },
    ]
}

fn release_result_buffer() -> (steps: Vec<Step>)
    ensures
        steps_view(steps@) == seq![StepView::DestroyBuffer { buffer: RESULT_BUFFER }],
{
    let mut steps: Vec<Step> = Vec::new();
    push_step(&mut steps, Step::DestroyBuffer { buffer: RESULT_BUFFER });
    assert(steps_view(steps@) =~= seq![StepView::DestroyBuffer { buffer: RESULT_BUFFER }]);
    steps
}

fn release_pool_and_result_buffer() -> (steps: Vec<Step>)
    ensures
        steps_view(steps@) == seq![
            StepView::DestroyPool,
            StepView::DestroyBuffer { buffer: RESULT_BUFFER },
        ],
{
    let mut steps: Vec<Step> = Vec::new();
    push_step(&mut steps, Step::DestroyPool);
    push_step(&mut steps, Step::DestroyBuffer { buffer: RESULT_BUFFER });
    assert(steps_view(steps@) =~= seq![
        StepView::DestroyPool,
        StepView::DestroyBuffer { buffer: RESULT_BUFFER },
    ]);
    steps
}

/// The tasks before the first chunk: the result buffer, the descriptor pool
/// and the two descriptor sets.
pub fn setup_tasks() -> (tasks: Vec<Task>)
    ensures
        tasks_view(tasks@) == setup_program(),
{
    let mut tasks: Vec<Task> = Vec::new();
    push_plain(&mut tasks, Step::AllocBuffer { buffer: RESULT_BUFFER, bytes: 4 });
    push_task(
        &mut tasks,
        Task {
            step: Step::CreatePool { max_sets: 2, max_storage_buffers: 3 },
            expect: Expect::Success,
            on_failure: release_result_buffer(),
            on_mismatch: Vec::new(),
            round: 0,
        },
    );
    push_task(
        &mut tasks,
        Task {
            step: Step::AllocSet { set: FILL_SET, kernel: Kernel::Fill },
            expect: Expect::Success,
            on_failure: release_pool_and_result_buffer(),
            on_mismatch: Vec::new(),
            round: 0,
        },
    );
    push_task(
        &mut tasks,
        Task {
            step: Step::AllocSet { set: VERIFY_SET, kernel: Kernel::Verify },
            expect: Expect::Success,
            on_failure: release_pool_and_result_buffer(),
            on_mismatch: Vec::new(),
            round: 0,
        },
    );
    proof {
        assert(steps_view(Seq::<Step>::empty()) =~= seq![]);
        assert(tasks_view(tasks@) =~~= setup_program());
    }
    tasks
}

/// The result of a setup that failed at a task.
pub open spec fn setup_failure(position: nat, error: Seq<char>) -> ResultView {
    let message = if position == 0 {
        "Cấp phát result buffer thất bại: "@ + error
    } else if position == 1 {
        "Tạo descriptor pool thất bại: "@ + error
    } else if position == 2 {
        "Alloc fill descriptor: "@ + error
    } else {
        "Alloc verify descriptor: "@ + error
    };
    error_result(message)
}

/// The result of a test that could not be set up.
pub open spec fn error_result(message: Seq<char>) -> ResultView {
    ResultView {
        name: "VRAM Capacity"@,
        status: StatusView::Error(message),
        score: points(0),
        details: message,
        metric_value: "N/A"@,
    }
}

fn err_result(msg: String) -> (result: BenchmarkResult)
    ensures
        result@ == error_result(msg@),
{
    BenchmarkResult {
        name: "VRAM Capacity".to_string(),
        status: TestStatus::Error(msg.clone()),
        score: Score::points(0),
        details: msg,
        metric_value: "N/A".to_string(),
    }
}

/// The result of a setup that failed at the task of the given number.
pub fn setup_error(position: usize, error: &str) -> (result: BenchmarkResult)
    ensures
        result@ == setup_failure(position as nat, error@),
{
    let mut message: String = match position {
        0 => "Cấp phát result buffer thất bại: ".to_string(),
        1 => "Tạo descriptor pool thất bại: ".to_string(),
        2 => "Alloc fill descriptor: ".to_string(),
        _ => "Alloc verify descriptor: ".to_string(),
    };
    message.append(error);
    err_result(message)
}

/// The push constants of both kernels on a chunk.
pub open spec fn chunk_push(pattern: Float32) -> PushData {
    PushData::Count1f(PushCount1f { count: CHUNK_F32_COUNT as u32, value: pattern })
}

/// The commands on a chunk: reset the counter, fill, and compare.
pub open spec fn chunk_commands(pattern: Float32) -> Seq<Command> {
    seq![
        Command::FillBuffer { buffer: RESULT_BUFFER, offset: 0, size: 4, word: 0 },
        transfer_barrier(),
    ] + dispatch_1d(
        Kernel::Fill,
        FILL_SET,
        chunk_push(pattern),
        CHUNK_F32_COUNT as u32,
        LOCAL_SIZE,
    ) + seq![compute_barrier()] + dispatch_1d(
        Kernel::Verify,
        VERIFY_SET,
        chunk_push(pattern),
        CHUNK_F32_COUNT as u32,
        LOCAL_SIZE,
    )
}

fn record_chunk_commands(pattern: Float32) -> (commands: Vec<Command>)
    ensures
        commands@ == chunk_commands(pattern),
{
    let data: PushData = PushData::Count1f(
        PushCount1f { count: CHUNK_F32_COUNT as u32, value: pattern },
    );
    let mut commands: Vec<Command> = Vec::new();
    commands.push(Command::FillBuffer { buffer: RESULT_BUFFER, offset: 0, size: 4, word: 0 });
    cmd_transfer_barrier(&mut commands);
    assert(commands@ =~= seq![
        Command::FillBuffer { buffer: RESULT_BUFFER, offset: 0, size: 4, word: 0 },
        transfer_barrier(),
    ]);
    record_dispatch_1d(
        &mut commands,
        Kernel::Fill,
        FILL_SET,
        data,
        CHUNK_F32_COUNT as u32,
        LOCAL_SIZE,
    );
    cmd_global_compute_barrier(&mut commands);
    record_dispatch_1d(
        &mut commands,
        Kernel::Verify,
        VERIFY_SET,
        data,
        CHUNK_F32_COUNT as u32,
        LOCAL_SIZE,
    );
    assert(commands@ =~= chunk_commands(pattern));
    commands
}

/// The size of a chunk in bytes.
pub const CHUNK_BYTES: u64 = 134_217_728;

/// The tasks on a chunk. A failed allocation leaves nothing to release; where
/// the device fails later, the chunk is released.
pub open spec fn chunk_program(index: nat) -> Seq<TaskView> {
    let buffer = chunk_buffer(index);
    let drop_chunk = seq![StepView::DestroyBuffer { buffer }];
    seq![
        plain(StepView::AllocBuffer { buffer, bytes: CHUNK_BYTES }),
        plain(
            StepView::Bind {
                set: FILL_SET,
                bindings: seq![Binding { binding: 0, buffer, bytes: CHUNK_BYTES }],
            },
        ),
        plain(
            StepView::Bind {
                set: VERIFY_SET,
                bindings: seq![
                    Binding { binding: 0, buffer, bytes: CHUNK_BYTES },
                    Binding { binding: 1, buffer: RESULT_BUFFER, bytes: 4 },
                ],
            },
        ),
        TaskView {
            on_failure: drop_chunk,
            ..plain(StepView::Execute { commands: chunk_commands(chunk_pattern(index)) })
        },
        TaskView {
            on_failure: drop_chunk,
            ..plain(StepView::ReadWord { buffer: RESULT_BUFFER, offset: 0 })
        },
        TaskView { on_failure: drop_chunk, ..plain(StepView::ReadFloat { buffer, offset: 0 }) },
    ]
}

fn release_chunk(buffer: usize) -> (steps: Vec<Step>)
    ensures
        steps_view(steps@) == seq![StepView::DestroyBuffer { buffer }],
{
    let mut steps: Vec<Step> = Vec::new();
    push_step(&mut steps, Step::DestroyBuffer { buffer });
    assert(steps_view(steps@) =~= seq![StepView::DestroyBuffer { buffer }]);
    steps
}

fn chunk_tasks(index: u64, pattern: Float32) -> (tasks: Vec<Task>)
    requires
        index + 1 <= usize::MAX,
        pattern == chunk_pattern(index as nat),
    ensures
        tasks_view(tasks@) == chunk_program(index as nat),
{
    let buffer: usize = (index + 1) as usize;
    let chunk_bytes: u64 = f32_bytes(CHUNK_F32_COUNT);
    let mut tasks: Vec<Task> = Vec::new();
    push_plain(&mut tasks, Step::AllocBuffer { buffer, bytes: chunk_bytes });
    let fill_bindings: Vec<Binding> = vec![Binding { binding: 0, buffer, bytes: chunk_bytes }];
    let verify_bindings: Vec<Binding> = vec![
        Binding { binding: 0, buffer, bytes: chunk_bytes },
        Binding { binding: 1, buffer: RESULT_BUFFER, bytes: 4 },
    ];
    push_plain(&mut tasks, Step::Bind { set: FILL_SET, bindings: fill_bindings });
    push_plain(&mut tasks, Step::Bind { set: VERIFY_SET, bindings: verify_bindings });
    push_task(
        &mut tasks,
        Task {
            step: Step::Execute { commands: record_chunk_commands(pattern) },
            expect: Expect::Success,
            on_failure: release_chunk(buffer),
            on_mismatch: Vec::new(),
            round: 0,
        },
    );
    push_task(
        &mut tasks,
        Task {
            step: Step::ReadWord { buffer: RESULT_BUFFER, offset: 0 },
            expect: Expect::Success,
            on_failure: release_chunk(buffer),
            on_mismatch: Vec::new(),
            round: 0,
        },
    );
    push_task(
        &mut tasks,
        Task {
            step: Step::ReadFloat { buffer, offset: 0 },
            expect: Expect::Success,
            on_failure: release_chunk(buffer),
            on_mismatch: Vec::new(),
            round: 0,
        },
    );
    proof {
        assert(steps_view(Seq::<Step>::empty()) =~= seq![]);
        assert(fill_bindings@ =~= seq![Binding { binding: 0, buffer, bytes: CHUNK_BYTES }]);
        assert(verify_bindings@ =~= seq![
            Binding { binding: 0, buffer, bytes: CHUNK_BYTES },
            Binding { binding: 1, buffer: RESULT_BUFFER, bytes: 4 },
        ]);
        assert(tasks_view(tasks@) =~~= chunk_program(index as nat));
    }
    tasks
}

/// What is done on the next chunk, and what the progress display shows
/// meanwhile.
pub struct ChunkPlan {
    pub index: u64,
    pub message: String,
    pub tasks: Vec<Task>,
}

/// What a chunk brought: the device failed, or the chunk was checked.
#[derive(Debug, Clone, Copy, PartialEq, Eq, Structural)]
pub enum ChunkReport {
    Stopped,
    Checked { error_count: u32, probe: Float32 },
}

/// What was read of a chunk so far: the mismatch counter, and the report once
/// the probe is there too.
#[derive(Debug, Clone, Copy, PartialEq, Eq, Structural)]
pub struct ChunkReading {
    pub error_count: u32,
    pub report: ChunkReport,
}

impl ChunkReading {
    /// What was read after one more step.
    pub open spec fn after(self, event: Event) -> ChunkReading {
        match event {
            Event::Word(count) => ChunkReading { error_count: count, ..self },
            Event::Float(probe) => ChunkReading {
                report: ChunkReport::Checked { error_count: self.error_count, probe },
                ..self
            },
            _ => self,
        }
    }

    /// What was read after some steps.
    pub open spec fn after_all(self, events: Seq<Event>) -> ChunkReading
        decreases events.len(),
    {
        if events.len() == 0 {
            self
        } else {
            self.after_all(events.drop_last()).after(events.last())
        }
    }

    /// Before the first read.
    pub fn new() -> (reading: ChunkReading)
        ensures
            reading == (ChunkReading { error_count: 0, report: ChunkReport::Stopped }),
    {
        ChunkReading { error_count: 0, report: ChunkReport::Stopped }
    }

    /// Takes note of what a step on the chunk brought. The word is the mismatch
    /// counter; the number is the probe, which comes last.
    pub fn note(&mut self, event: Event)
        ensures
            *final(self) == match event {
                Event::Word(count) => ChunkReading { error_count: count, ..*old(self) },
                Event::Float(probe) => ChunkReading {
                    report: ChunkReport::Checked { error_count: old(self).error_count, probe },
                    ..*old(self)
                },
                _ => *old(self),
            },
            *final(self) == old(self).after(event),
    {
        match event {
            Event::Word(count) => {
                self.error_count = count;
            },
            Event::Float(probe) => {
                self.report = ChunkReport::Checked { error_count: self.error_count, probe };
            },
            _ => {},
        }
    }
}

/// The test on its way: how many chunks are checked and stay alive, how many
/// of them held wrong data, and whether the memory is used up.
#[derive(Debug, Clone, Copy)]
pub struct VramTest {
    pub dedicated_vram_mb: Option<u64>,
    pub total_chunks: u64,
    pub chunks: u64,
    pub integrity_errors: u64,
    pub stopped: bool,
}

/// "so many MB checked"
pub open spec fn checked_message(mb: nat) -> Seq<char> {
    decimal(mb) + " MB đã kiểm tra"@
}

/// The warning about a chunk with wrong data.
pub open spec fn chunk_warning(index: nat, error_count: u32) -> Seq<char> {
    "Chunk #"@ + decimal(index) + " (~"@ + decimal(index * 128) + " MB): DỮ LIỆU SAI (mismatches="@
        + decimal(error_count as nat) + ") — nghi ngờ VRAM hỏng vùng này!"@
}

impl VramTest {
    pub open spec fn wf(self) -> bool {
        &&& self.total_chunks == chunk_limit(self.dedicated_vram_mb)
        &&& self.total_chunks < usize::MAX
        &&& self.total_chunks * 128 <= u64::MAX
        &&& self.chunks <= self.total_chunks
        &&& self.integrity_errors <= self.chunks
    }

    /// The checked memory in megabytes.
    pub open spec fn verified_mb(self) -> nat {
        self.chunks as nat * 128
    }

    /// Whether the data of the next chunk is wrong.
    pub open spec fn is_wrong(self, error_count: u32, probe: Float32) -> bool {
        error_count > 0 || !probe.equals(chunk_pattern(self.chunks as nat))
    }

    /// The test after a chunk.
    pub open spec fn after(self, report: ChunkReport) -> VramTest {
        match report {
            ChunkReport::Stopped => VramTest { stopped: true, ..self },
            ChunkReport::Checked { error_count, probe } => VramTest {
                chunks: (self.chunks + 1) as u64,
                integrity_errors: if self.is_wrong(error_count, probe) {
                    (self.integrity_errors + 1) as u64
                } else {
                    self.integrity_errors
                },
                ..self
            },
        }
    }

    /// The warning that a chunk gives, if any.
    pub open spec fn warning_for(self, report: ChunkReport) -> Option<Seq<char>> {
        match report {
            ChunkReport::Stopped => None,
            ChunkReport::Checked { error_count, probe } => if self.is_wrong(error_count, probe) {
                Some(chunk_warning(self.chunks as nat, error_count))
            } else {
                None
            },
        }
    }

    /// Whether another chunk follows.
    pub open spec fn goes_on(self) -> bool {
        !self.stopped && self.chunks < self.total_chunks
    }

    /// Whether the chunks of a nominal amount of memory can be counted.
    pub fn can_count(dedicated_vram_mb: Option<u64>) -> (fits: bool)
        ensures
            fits == {
                &&& dedicated_vram_mb matches Some(nominal) ==> nominal + 1024 <= u64::MAX
                &&& chunk_limit(dedicated_vram_mb) < usize::MAX
            },
    {
        let fits: bool = match dedicated_vram_mb {
            Some(nominal) => nominal <= u64::MAX - 1024,
            None => true,
        };
        fits && total_chunks(dedicated_vram_mb) < usize::MAX as u64
    }

    /// Starts the test.
    pub fn new(dedicated_vram_mb: Option<u64>) -> (test: VramTest)
        requires
            dedicated_vram_mb matches Some(nominal) ==> nominal + 1024 <= u64::MAX,
            chunk_limit(dedicated_vram_mb) < usize::MAX,
        ensures
            test.wf(),
            test.dedicated_vram_mb == dedicated_vram_mb,
            test.total_chunks == chunk_limit(dedicated_vram_mb),
            test.chunks == 0,
            test.integrity_errors == 0,
            !test.stopped,
    {
        VramTest {
            dedicated_vram_mb,
            total_chunks: total_chunks(dedicated_vram_mb),
            chunks: 0,
            integrity_errors: 0,
            stopped: false,
        }
    }

    /// The message of the progress display before the first chunk.
    pub fn first_message() -> (message: &'static str)
        ensures
            message@ == "0 MB đã kiểm tra"@,
    {
        "0 MB đã kiểm tra"
    }

    /// The next chunk, unless the memory is used up or the limit is reached.
    pub fn next_chunk(&self) -> (plan: Option<ChunkPlan>)
        requires
            self.wf(),
        ensures
            plan is Some <==> self.goes_on(),
            plan is Some <==> !self.stopped && self.chunks < self.total_chunks,
            plan matches Some(plan) ==> {
                &&& plan.index == self.chunks
                &&& plan.message@ == checked_message(self.verified_mb())
                &&& tasks_view(plan.tasks@) == chunk_program(self.chunks as nat)
            },
    {
        if self.stopped || self.chunks >= self.total_chunks {
            return None;
        }
        let pattern: Float32 = Float32 { bits: VRAM_PATTERNS[(self.chunks % 8) as usize] };
        let mut message = String::new();
        push_decimal(&mut message, (self.chunks * CHUNK_MB) as u128);
        message.append(" MB đã kiểm tra");
        assert(message@ =~= checked_message(self.verified_mb()));
        Some(ChunkPlan { index: self.chunks, message, tasks: chunk_tasks(self.chunks, pattern) })
    }

    /// Takes note of what a chunk brought; wrong data gives a warning.
    pub fn record_chunk(&mut self, report: ChunkReport) -> (warning: Option<String>)
        requires
            old(self).wf(),
            old(self).chunks < old(self).total_chunks,
        ensures
            *final(self) == old(self).after(report),
            final(self).wf(),
            warning is Some <==> old(self).warning_for(report) is Some,
            warning matches Some(text) ==> old(self).warning_for(report) == Some(text@),
            match report {
                ChunkReport::Stopped => warning is None,
                ChunkReport::Checked { error_count, probe } => if old(self).is_wrong(
                    error_count,
                    probe,
                ) {
                    warning matches Some(text) && text@ == chunk_warning(
                        old(self).chunks as nat,
                        error_count,
                    )
                } else {
                    warning is None
                },
            },
    {
        match report {
            ChunkReport::Stopped => {
                self.stopped = true;
                None
            },
            ChunkReport::Checked { error_count, probe } => {
                let pattern: Float32 = Float32 {
                    bits: VRAM_PATTERNS[(self.chunks % 8) as usize],
                };
                let index: u64 = self.chunks;
                self.chunks = self.chunks + 1;
                if error_count > 0 || !probe.same_value(pattern) {
                    self.integrity_errors = self.integrity_errors + 1;
                    let mut text = "Chunk #".to_string();
                    push_decimal(&mut text, index as u128);
                    text.append(" (~");
                    push_decimal(&mut text, (index * CHUNK_MB) as u128);
                    text.append(" MB): DỮ LIỆU SAI (mismatches=");
                    push_decimal(&mut text, error_count as u128);
                    text.append(") — nghi ngờ VRAM hỏng vùng này!");
                    Some(text)
                } else {
                    None
                }
            },
        }
    }
}

/// The steps after the last chunk: release the chunks in their order, the
/// descriptor pool, and the result buffer.
pub open spec fn cleanup_program(chunks: nat) -> Seq<StepView> {
    Seq::new(chunks, |i: int| StepView::DestroyBuffer { buffer: chunk_buffer(i as nat) }) + seq![
        StepView::DestroyPool,
        StepView::DestroyBuffer { buffer: RESULT_BUFFER },
    ]
}

/// The points for the memory that was found. Where the nominal memory is
/// known, its share counts; otherwise the amount.
pub open spec fn capacity_points(measured_mb: nat, nominal_mb: Option<u64>) -> u64 {
    match share_of_nominal(measured_mb, nominal_mb) {
        Some((found, nominal)) => if 10 * found >= 9 * nominal {
            100
        } else if 4 * found >= 3 * nominal {
            88
        } else if 5 * found >= 3 * nominal {
            72
        } else if 5 * found >= 2 * nominal {
            50
        } else {
            25
        },
        None => if measured_mb >= 8000 {
            100
        } else if measured_mb >= 4000 {
            85
        } else if measured_mb >= 2000 {
            70
        } else if measured_mb >= 1000 {
            55
        } else {
            40
        },
    }
}

/// The memory that was found out of the nominal memory, and the nominal
/// memory, where that is known and not zero.
pub open spec fn share_of_nominal(measured_mb: nat, nominal_mb: Option<u64>) -> Option<
    (nat, nat),
> {
    match nominal_mb {
        Some(nominal) => if nominal > 0 {
            Some(
                (
                    if measured_mb < nominal {
                        measured_mb
                    } else {
                        nominal as nat
                    },
                    nominal as nat,
                ),
            )
        } else {
            None
        },
        None => None,
    }
}

/// The score: wrong data caps the points, and every chunk of it divides them
/// further.
pub open spec fn vram_score(measured_mb: nat, nominal_mb: Option<u64>, errors: u64) -> Score {
    let reached = capacity_points(measured_mb, nominal_mb);
    if errors > 0 {
        Score {
            num: if reached < 35 {
                reached
            } else {
                35
            },
            den: (1 + errors) as u64,
        }
    } else {
        points(reached)
    }
}

/// The status: wrong data fails the test, otherwise the score decides.
pub open spec fn vram_status(score: Score, errors: u64) -> StatusView {
    if errors > 0 {
        StatusView::Failed
    } else if score.reaches(70) {
        StatusView::Passed
    } else if score.reaches(40) {
        StatusView::Warning
    } else {
        StatusView::Failed
    }
}

/// The remarks on a result.
pub open spec fn vram_notes(measured_mb: nat, nominal_mb: Option<u64>, errors: u64) -> Seq<
    Seq<char>,
> {
    let wrong = if errors > 0 {
        seq![decimal(errors as nat) + " chunk sai dữ liệu — VRAM có vùng hỏng"@]
    } else {
        seq![]
    };
    let beyond = if nominal_mb matches Some(nominal) && 100 * measured_mb > 102 * nominal {
        wrong.push(
            "cấp phát vượt mức danh nghĩa (phần vượt có thể là shared memory của Windows)"@,
        )
    } else {
        wrong
    };
    if share_of_nominal(measured_mb, nominal_mb) matches Some((found, nominal)) && 10 * found < 9
        * nominal {
        beyond.push("khả dụng thấp — có thể app khác đang chiếm VRAM hoặc VRAM yếu"@)
    } else {
        beyond
    }
}

/// The details of a result. `percent` is the share of the nominal memory in
/// per cent, as text.
pub open spec fn vram_details(test: VramTest, percent: Seq<char>) -> Seq<char> {
    let measured = test.verified_mb();
    let notes = vram_notes(measured, test.dedicated_vram_mb, test.integrity_errors);
    "Kiểm tra "@ + decimal(test.chunks as nat) + " chunk × "@ + decimal(128) + " MB: khả dụng "@
        + decimal(measured) + " MB"@ + (match test.dedicated_vram_mb {
        Some(nominal) => " / danh nghĩa "@ + decimal(nominal as nat) + " MB ("@ + percent
            + "%)"@,
        None => seq![],
    }) + (if notes.len() == 0 {
        seq![]
    } else {
        " | "@ + joined(notes, " | "@)
    })
}

/// The result of the test.
pub open spec fn vram_result(test: VramTest, percent: Seq<char>) -> ResultView {
    if test.chunks == 0 {
        ResultView {
            name: "VRAM Capacity"@,
            status: StatusView::Error("Allocation failed"@),
            score: points(0),
            details: "Không thể cấp phát VRAM — GPU/driver có vấn đề"@,
            metric_value: "N/A"@,
        }
    } else {
        let measured = test.verified_mb();
        let score = vram_score(measured, test.dedicated_vram_mb, test.integrity_errors);
        ResultView {
            name: "VRAM Capacity"@,
            status: vram_status(score, test.integrity_errors),
            score,
            details: vram_details(test, percent),
            metric_value: match test.dedicated_vram_mb {
                Some(nominal) => decimal(measured) + "/"@ + decimal(nominal as nat) + " MB"@,
                None => decimal(measured) + " MB"@,
            },
        }
    }
}

fn grade_capacity(measured_mb: u64, nominal_mb: Option<u64>) -> (reached: u64)
    ensures
        reached == capacity_points(measured_mb as nat, nominal_mb),
        reached <= 100,
{
    match nominal_mb {
        Some(nominal) if nominal > 0 => {
            let found: u128 = if measured_mb < nominal {
                measured_mb as u128
            } else {
                nominal as u128
            };
            let whole: u128 = nominal as u128;
            if 10 * found >= 9 * whole {
                100
            } else if 4 * found >= 3 * whole {
                88
            } else if 5 * found >= 3 * whole {
                72
            } else if 5 * found >= 2 * whole {
                50
            } else {
                25
            }
        },
        _ => {
            if measured_mb >= 8000 {
                100
            } else if measured_mb >= 4000 {
                85
            } else if measured_mb >= 2000 {
                70
            } else if measured_mb >= 1000 {
                55
            } else {
                40
            }
        },
    }
}

fn score_capacity(measured_mb: u64, nominal_mb: Option<u64>, errors: u64) -> (score: Score)
    requires
        errors < u64::MAX,
    ensures
        score == vram_score(measured_mb as nat, nominal_mb, errors),
        score.wf(),
{
    let reached: u64 = grade_capacity(measured_mb, nominal_mb);
    if errors > 0 {
        let capped: u64 = if reached < 35 {
            reached
        } else {
            35
        };
        Score { num: capped, den: 1 + errors }
    } else {
        Score::points(reached)
    }
}

fn collect_notes(measured_mb: u64, nominal_mb: Option<u64>, errors: u64) -> (notes: Vec<String>)
    ensures
        texts(notes@) == vram_notes(measured_mb as nat, nominal_mb, errors),
{
    let mut notes: Vec<String> = Vec::new();
    let ghost expected = vram_notes(measured_mb as nat, nominal_mb, errors);
    if errors > 0 {
        let mut note = String::new();
        push_decimal(&mut note, errors as u128);
        note.append(" chunk sai dữ liệu — VRAM có vùng hỏng");
        assert(note@ =~= decimal(errors as nat) + " chunk sai dữ liệu — VRAM có vùng hỏng"@);
        notes.push(note);
    }
    match nominal_mb {
        Some(nominal) => {
            if 100 * measured_mb as u128 > 102 * nominal as u128 {
                notes.push(
                    "cấp phát vượt mức danh nghĩa (phần vượt có thể là shared memory của Windows)".to_string(),
                );
            }
            if nominal > 0 {
                let found: u128 = if measured_mb < nominal {
                    measured_mb as u128
                } else {
                    nominal as u128
                };
                if 10 * found < 9 * nominal as u128 {
                    notes.push(
                        "khả dụng thấp — có thể app khác đang chiếm VRAM hoặc VRAM yếu".to_string(),
                    );
                }
            }
        },
        None => {},
    }
    assert(texts(notes@) =~= vram_notes(measured_mb as nat, nominal_mb, errors));
    notes
}

impl VramTest {
    /// The steps after the last chunk.
    pub fn cleanup(&self) -> (steps: Vec<Step>)
        requires
            self.wf(),
        ensures
            steps_view(steps@) == cleanup_program(self.chunks as nat),
    {
        let mut steps: Vec<Step> = Vec::new();
        let mut i: u64 = 0;
        while i < self.chunks
            invariant
                self.wf(),
                i <= self.chunks,
                steps_view(steps@) == Seq::new(
                    i as nat,
                    |j: int| StepView::DestroyBuffer { buffer: chunk_buffer(j as nat) },
                ),
            decreases self.chunks - i,
        {
            push_step(&mut steps, Step::DestroyBuffer { buffer: (i + 1) as usize });
            i = i + 1;
            assert(steps_view(steps@) =~= Seq::new(
                i as nat,
                |j: int| StepView::DestroyBuffer { buffer: chunk_buffer(j as nat) },
            ));
        }
        push_step(&mut steps, Step::DestroyPool);
        push_step(&mut steps, Step::DestroyBuffer { buffer: RESULT_BUFFER });
        assert(steps_view(steps@) =~= cleanup_program(self.chunks as nat));
        steps
    }

    fn describe(&self, percent: &str) -> (details: String)
        requires
            self.wf(),
        ensures
            details@ == vram_details(*self, percent@),
    {
        let measured: u64 = self.chunks * CHUNK_MB;
        let mut details = "Kiểm tra ".to_string();
        push_decimal(&mut details, self.chunks as u128);
        details.append(" chunk × ");
        push_decimal(&mut details, CHUNK_MB as u128);
        details.append(" MB: khả dụng ");
        push_decimal(&mut details, measured as u128);
        details.append(" MB");
        let ghost head = details@;
        let mut tail = String::new();
        match self.dedicated_vram_mb {
            Some(nominal) => {
                tail.append(" / danh nghĩa ");
                push_decimal(&mut tail, nominal as u128);
                tail.append(" MB (");
                tail.append(percent);
                tail.append("%)");
                assert(tail@ =~= " / danh nghĩa "@ + decimal(nominal as nat) + " MB ("@ + percent@
                    + "%)"@);
            },
            None => {},
        }
        details.append(tail.as_str());
        let notes: Vec<String> = collect_notes(
            measured,
            self.dedicated_vram_mb,
            self.integrity_errors,
        );
        let mut remarks = String::new();
        if notes.len() > 0 {
            remarks.append(" | ");
            let all: String = join(&notes, " | ");
            remarks.append(all.as_str());
            assert(remarks@ =~= " | "@ + joined(texts(notes@), " | "@));
        }
        details.append(remarks.as_str());
        details
    }

    /// The result of the test. `percent` is the share of the nominal memory in
    /// per cent, as text.
    pub fn result(&self, percent: &str) -> (result: BenchmarkResult)
        requires
            self.wf(),
        ensures
            result@ == vram_result(*self, percent@),
            result@.score.wf(),
    {
        if self.chunks == 0 {
            return BenchmarkResult {
                name: "VRAM Capacity".to_string(),
                status: TestStatus::Error("Allocation failed".to_string()),
                score: Score::points(0),
                details: "Không thể cấp phát VRAM — GPU/driver có vấn đề".to_string(),
                metric_value: "N/A".to_string(),
            };
        }
        let measured: u64 = self.chunks * CHUNK_MB;
        let score: Score = score_capacity(measured, self.dedicated_vram_mb, self.integrity_errors);
        let status: TestStatus = if self.integrity_errors > 0 {
            TestStatus::Failed
        } else if score.is_at_least(70) {
            TestStatus::Passed
        } else if score.is_at_least(40) {
            TestStatus::Warning
        } else {
            TestStatus::Failed
        };
        let mut metric_value = String::new();
        push_decimal(&mut metric_value, measured as u128);
        match self.dedicated_vram_mb {
            Some(nominal) => {
                metric_value.append("/");
                push_decimal(&mut metric_value, nominal as u128);
                metric_value.append(" MB");
                assert(metric_value@ =~= decimal(measured as nat) + "/"@ + decimal(nominal as nat)
                    + " MB"@);
            },
            None => {
                metric_value.append(" MB");
                assert(metric_value@ =~= decimal(measured as nat) + " MB"@);
            },
        }
        BenchmarkResult {
            name: "VRAM Capacity".to_string(),
            status,
            score,
            details: self.describe(percent),
            metric_value,
        }
    }
}

/// Wrong data in a single chunk fails the test, and the score stays below
/// half of the cap.
pub proof fn law_wrong_data_fails(test: VramTest, percent: Seq<char>)
    requires
        test.wf(),
        test.integrity_errors > 0,
    ensures
        vram_result(test, percent).status is Failed,
        2 * vram_result(test, percent).score.num <= 35 * vram_result(test, percent).score.den,
{
}

/// More memory never lowers the points.
pub proof fn law_more_memory_scores_no_less(less: nat, more: nat, nominal_mb: Option<u64>)
    requires
        less <= more,
    ensures
        capacity_points(less, nominal_mb) <= capacity_points(more, nominal_mb),
{
}

} // verus!
