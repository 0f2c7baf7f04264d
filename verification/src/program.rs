//! Device programs: the commands and steps that a benchmark has a device
//! perform, as data.
//!
//! Buffers, descriptor sets and inputs are named by small numbers, their
//! places. Whoever performs a program keeps the device objects that the
//! places stand for.
use vstd::prelude::*;

use crate::benchmarks::{PushCount1f, PushMatmul};
use crate::compute::{Binding, Kernel, SHADER_STAGE_COMPUTE};
use crate::float_bits::Float32;

verus! {

/// The push constants of a dispatch.
#[derive(Debug, Clone, Copy, PartialEq, Eq, Structural)]
pub enum PushData {
    Empty,
    Count1f(PushCount1f),
    Matmul(PushMatmul),
}

impl PushData {
    /// How many bytes the push constants take.
    pub open spec fn size(self) -> nat {
        match self {
            PushData::Empty => 0,
            PushData::Count1f(_) => 8,
            PushData::Matmul(_) => 4,
        }
    }

    /// The push constants as words.
    pub open spec fn words(self) -> Seq<u32> {
        match self {
            PushData::Empty => seq![],
            PushData::Count1f(push) => seq![push.count, push.value.bits],
            PushData::Matmul(push) => seq![push.n],
        }
    }

    /// The push constants as bytes, each word in the machine's byte order.
    pub fn bytes(&self) -> (bytes: Vec<u8>)
        ensures
            bytes.len() == self.size(),
            bytes@ == crate::benchmarks::little_endian(self.words()) || bytes@
                == crate::benchmarks::big_endian(self.words()),
    {
        match self {
            PushData::Empty => {
                let bytes: Vec<u8> = Vec::new();
                assert(bytes@ =~= crate::benchmarks::little_endian(self.words()));
                bytes
            },
            PushData::Count1f(push) => push.bytes(),
            PushData::Matmul(push) => push.bytes(),
        }
    }
}

/// Vulkan's number for compute among the pipeline bind points.
pub const BIND_POINT_COMPUTE: i32 = 1;

/// Vulkan's flags for the pipeline stages of kernels and transfers.
pub const STAGE_COMPUTE_SHADER: u32 = 0x800;

pub const STAGE_TRANSFER: u32 = 0x1000;

/// Vulkan's flags for the memory accesses of kernels and transfers.
pub const ACCESS_SHADER_WRITE: u32 = 0x40;

pub const ACCESS_SHADER_READ_WRITE: u32 = 0x60;

pub const ACCESS_TRANSFER_WRITE: u32 = 0x1000;

/// A command of a command buffer.
#[derive(Debug, Clone, Copy, PartialEq, Eq, Structural)]
pub enum Command {
    BindPipeline { bind_point: i32, kernel: Kernel },
    BindDescriptorSet { bind_point: i32, kernel: Kernel, first_set: u32, set: usize },
    PushConstants { kernel: Kernel, stage_flags: u32, range_offset: u32, data: PushData },
    Dispatch { x: u32, y: u32, z: u32 },
    /// Writes one word over and over into `size` bytes of a buffer.
    FillBuffer { buffer: usize, offset: u64, size: u64, word: u32 },
    /// What one stage wrote by some accesses before is seen by the accesses of
    /// another stage after, in all memory.
    MemoryBarrier { src_stage: u32, dst_stage: u32, src_access: u32, dst_access: u32 },
}

/// What transfers wrote before is seen by the kernels after.
pub open spec fn transfer_barrier() -> Command {
    Command::MemoryBarrier {
        src_stage: STAGE_TRANSFER,
        dst_stage: STAGE_COMPUTE_SHADER,
        src_access: ACCESS_TRANSFER_WRITE,
        dst_access: ACCESS_SHADER_READ_WRITE,
    }
}

/// What kernels wrote before is seen by the kernels after.
pub open spec fn compute_barrier() -> Command {
    Command::MemoryBarrier {
        src_stage: STAGE_COMPUTE_SHADER,
        dst_stage: STAGE_COMPUTE_SHADER,
        src_access: ACCESS_SHADER_WRITE,
        dst_access: ACCESS_SHADER_READ_WRITE,
    }
}

/// How many groups of `local` threads it takes to have a thread for each of
/// `count` elements.
pub open spec fn group_count(count: nat, local: nat) -> nat
    recommends
        local > 0,
{
    ((count + local - 1) / local as int) as nat
}

/// There is a thread for every element, and no group without an element.
pub proof fn law_groups_cover_elements(count: nat, local: nat)
    requires
        local > 0,
    ensures
        group_count(count, local) * local >= count,
        count > 0 ==> (group_count(count, local) - 1) * local < count,
        count == 0 ==> group_count(count, local) == 0,
{
    let groups = group_count(count, local) as int;
    let top = count + local - 1;
    vstd::arithmetic::div_mod::lemma_fundamental_div_mod(top, local as int);
    assert(0 <= top % (local as int) && top % (local as int) < local);
    assert(groups * local == local * (top / local as int)) by (nonlinear_arith)
        requires
            groups == top / local as int,
    ;
    assert((groups - 1) * local == groups * local - local) by (nonlinear_arith);
    if count == 0 {
        vstd::arithmetic::div_mod::lemma_basic_div(top, local as int);
    }
}

/// The commands of one dispatch: bind the pipeline and its descriptor set,
/// push the constants, where there are any, and start the groups.
pub open spec fn dispatch(
    kernel: Kernel,
    set: usize,
    data: PushData,
    x: u32,
    y: u32,
) -> Seq<Command> {
    let bound = seq![
        Command::BindPipeline { bind_point: BIND_POINT_COMPUTE, kernel },
        Command::BindDescriptorSet { bind_point: BIND_POINT_COMPUTE, kernel, first_set: 0, set },
    ];
    let pushed = if data is Empty {
        bound
    } else {
        bound.push(
            Command::PushConstants {
                kernel,
                stage_flags: SHADER_STAGE_COMPUTE,
                range_offset: 0,
                data,
            },
        )
    };
    pushed.push(Command::Dispatch { x, y, z: 1 })
}

/// The commands of a dispatch with a thread for each element.
pub open spec fn dispatch_1d(
    kernel: Kernel,
    set: usize,
    data: PushData,
    element_count: u32,
    local_size_x: u32,
) -> Seq<Command> {
    dispatch(
        kernel,
        set,
        data,
        group_count(element_count as nat, local_size_x as nat) as u32,
        1,
    )
}

/// The commands of a dispatch with a thread for each element of a square.
pub open spec fn dispatch_2d(
    kernel: Kernel,
    set: usize,
    data: PushData,
    n: u32,
    local_size: u32,
) -> Seq<Command> {
    dispatch(
        kernel,
        set,
        data,
        group_count(n as nat, local_size as nat) as u32,
        group_count(n as nat, local_size as nat) as u32,
    )
}

fn record_dispatch(
    commands: &mut Vec<Command>,
    kernel: Kernel,
    set: usize,
    data: PushData,
    x: u32,
    y: u32,
)
    ensures
        final(commands)@ == old(commands)@ + dispatch(kernel, set, data, x, y),
{
    commands.push(Command::BindPipeline { bind_point: BIND_POINT_COMPUTE, kernel });
    commands.push(
        Command::BindDescriptorSet { bind_point: BIND_POINT_COMPUTE, kernel, first_set: 0, set },
    );
    match data {
        PushData::Empty => {},
        _ => {
            commands.push(
                Command::PushConstants {
                    kernel,
                    stage_flags: SHADER_STAGE_COMPUTE,
                    range_offset: 0,
                    data,
                },
            );
        },
    }
    commands.push(Command::Dispatch { x, y, z: 1 });
    assert(commands@ =~= old(commands)@ + dispatch(kernel, set, data, x, y));
}

/// Records a dispatch with a thread for each element.
pub fn record_dispatch_1d(
    commands: &mut Vec<Command>,
    kernel: Kernel,
    set: usize,
    data: PushData,
    element_count: u32,
    local_size_x: u32,
)
    requires
        local_size_x > 0,
        element_count + local_size_x - 1 <= u32::MAX,
    ensures
        final(commands)@ == old(commands)@ + dispatch_1d(
            kernel,
            set,
            data,
            element_count,
            local_size_x,
        ),
{
    let groups: u32 = (element_count + (local_size_x - 1)) / local_size_x;
    record_dispatch(commands, kernel, set, data, groups, 1);
}

/// Records a dispatch with a thread for each element of a square.
pub fn record_dispatch_2d(
    commands: &mut Vec<Command>,
    kernel: Kernel,
    set: usize,
    data: PushData,
    n: u32,
    local_size: u32,
)
    requires
        local_size > 0,
        n + local_size - 1 <= u32::MAX,
    ensures
        final(commands)@ == old(commands)@ + dispatch_2d(kernel, set, data, n, local_size),
{
    let groups: u32 = (n + (local_size - 1)) / local_size;
    record_dispatch(commands, kernel, set, data, groups, groups);
}

/// Records a barrier between two compute passes: what was written before is
/// seen after.
pub fn cmd_global_compute_barrier(commands: &mut Vec<Command>)
    ensures
        final(commands)@ == old(commands)@.push(compute_barrier()),
{
    commands.push(
        Command::MemoryBarrier {
            src_stage: STAGE_COMPUTE_SHADER,
            dst_stage: STAGE_COMPUTE_SHADER,
            src_access: ACCESS_SHADER_WRITE,
            dst_access: ACCESS_SHADER_READ_WRITE,
        },
    );
}

/// Records a barrier between a transfer and a compute pass: what was written
/// before is seen after.
pub fn cmd_transfer_barrier(commands: &mut Vec<Command>)
    ensures
        final(commands)@ == old(commands)@.push(transfer_barrier()),
{
    commands.push(
        Command::MemoryBarrier {
            src_stage: STAGE_TRANSFER,
            dst_stage: STAGE_COMPUTE_SHADER,
            src_access: ACCESS_TRANSFER_WRITE,
            dst_access: ACCESS_SHADER_READ_WRITE,
        },
    );
}

/// A step of a device program.
#[derive(Debug)]
pub enum Step {
    /// Creates a device-local storage buffer.
    AllocBuffer { buffer: usize, bytes: u64 },
    /// Copies `count` numbers of an input to the start of a buffer.
    Upload { buffer: usize, input: usize, count: usize },
    /// Creates a pool for `max_sets` descriptor sets, each with up to
    /// `max_storage_buffers` storage buffers.
    CreatePool { max_sets: u32, max_storage_buffers: u32 },
    AllocSet { set: usize, kernel: Kernel },
    Bind { set: usize, bindings: Vec<Binding> },
    /// Runs commands and waits until they are done.
    Execute { commands: Vec<Command> },
    /// Copies `count` numbers from the start of a buffer.
    Download { buffer: usize, count: usize },
    /// Reads the number at a byte offset.
    ReadFloat { buffer: usize, offset: u64 },
    /// Reads the word at a byte offset.
    ReadWord { buffer: usize, offset: u64 },
    StartClock,
    StopClock,
    DestroyPool,
    DestroyBuffer { buffer: usize },
}

/// A step with its lists as sequences.
pub enum StepView {
    AllocBuffer { buffer: usize, bytes: u64 },
    Upload { buffer: usize, input: usize, count: usize },
    CreatePool { max_sets: u32, max_storage_buffers: u32 },
    AllocSet { set: usize, kernel: Kernel },
    Bind { set: usize, bindings: Seq<Binding> },
    Execute { commands: Seq<Command> },
    Download { buffer: usize, count: usize },
    ReadFloat { buffer: usize, offset: u64 },
    ReadWord { buffer: usize, offset: u64 },
    StartClock,
    StopClock,
    DestroyPool,
    DestroyBuffer { buffer: usize },
}

impl View for Step {
    type V = StepView;

    open spec fn view(&self) -> StepView {
        match self {
            Step::AllocBuffer { buffer, bytes } => StepView::AllocBuffer {
                buffer: *buffer,
                bytes: *bytes,
            },
            Step::Upload { buffer, input, count } => StepView::Upload {
                buffer: *buffer,
                input: *input,
                count: *count,
            },
            Step::CreatePool { max_sets, max_storage_buffers } => StepView::CreatePool {
                max_sets: *max_sets,
                max_storage_buffers: *max_storage_buffers,
            },
            Step::AllocSet { set, kernel } => StepView::AllocSet { set: *set, kernel: *kernel },
            Step::Bind { set, bindings } => StepView::Bind { set: *set, bindings: bindings@ },
            Step::Execute { commands } => StepView::Execute { commands: commands@ },
            Step::Download { buffer, count } => StepView::Download {
                buffer: *buffer,
                count: *count,
            },
            Step::ReadFloat { buffer, offset } => StepView::ReadFloat {
                buffer: *buffer,
                offset: *offset,
            },
            Step::ReadWord { buffer, offset } => StepView::ReadWord {
                buffer: *buffer,
                offset: *offset,
            },
            Step::StartClock => StepView::StartClock,
            Step::StopClock => StepView::StopClock,
            Step::DestroyPool => StepView::DestroyPool,
            Step::DestroyBuffer { buffer } => StepView::DestroyBuffer { buffer: *buffer },
        }
    }
}

/// The views of a list of steps.
pub open spec fn steps_view(steps: Seq<Step>) -> Seq<StepView> {
    steps.map_values(|step: Step| step@)
}

/// What a step has to bring for the program to go on.
#[derive(Debug, Clone, Copy, PartialEq, Eq, Structural)]
pub enum Expect {
    /// The step succeeds, whatever it brings.
    Success,
    /// The step brings this number.
    FloatIs(Float32),
    /// The step brings this word.
    WordIs(u32),
}

/// A step of a program, what it has to bring, and what is still to be done
/// where the program ends there: because the device failed, or because the
/// step brought something else.
#[derive(Debug)]
pub struct Task {
    pub step: Step,
    pub expect: Expect,
    pub on_failure: Vec<Step>,
    pub on_mismatch: Vec<Step>,
    /// The round of the program that the step belongs to.
    pub round: usize,
}

/// A task with its lists as sequences.
pub struct TaskView {
    pub step: StepView,
    pub expect: Expect,
    pub on_failure: Seq<StepView>,
    pub on_mismatch: Seq<StepView>,
    pub round: usize,
}

impl View for Task {
    type V = TaskView;

    open spec fn view(&self) -> TaskView {
        TaskView {
            step: self.step@,
            expect: self.expect,
            on_failure: steps_view(self.on_failure@),
            on_mismatch: steps_view(self.on_mismatch@),
            round: self.round,
        }
    }
}

/// The views of a list of tasks.
pub open spec fn tasks_view(tasks: Seq<Task>) -> Seq<TaskView> {
    tasks.map_values(|task: Task| task@)
}

/// A task that only has to succeed, with nothing left to do where it fails.
pub open spec fn plain(step: StepView) -> TaskView {
    TaskView {
        step,
        expect: Expect::Success,
        on_failure: seq![],
        on_mismatch: seq![],
        round: 0,
    }
}

/// Tasks that only have to succeed.
pub open spec fn plain_tasks(steps: Seq<StepView>) -> Seq<TaskView> {
    steps.map_values(|step: StepView| plain(step))
}

/// Adds a step to a list.
pub fn push_step(steps: &mut Vec<Step>, step: Step)
    ensures
        steps_view(final(steps)@) == steps_view(old(steps)@).push(step@),
{
    steps.push(step);
    assert(steps_view(steps@) =~= steps_view(old(steps)@).push(step@));
}

/// Adds a task that only has to succeed.
pub fn push_plain(tasks: &mut Vec<Task>, step: Step)
    ensures
        tasks_view(final(tasks)@) == tasks_view(old(tasks)@).push(plain(step@)),
{
    let task = Task {
        step,
        expect: Expect::Success,
        on_failure: Vec::new(),
        on_mismatch: Vec::new(),
        round: 0,
    };
    assert(task@.on_failure =~= seq![]);
    assert(task@.on_mismatch =~= seq![]);
    tasks.push(task);
    assert(tasks_view(tasks@) =~= tasks_view(old(tasks)@).push(plain(step@)));
}

/// Adds a task.
pub fn push_task(tasks: &mut Vec<Task>, task: Task)
    ensures
        tasks_view(final(tasks)@) == tasks_view(old(tasks)@).push(task@),
{
    tasks.push(task);
    assert(tasks_view(tasks@) =~= tasks_view(old(tasks)@).push(task@));
}

} // verus!
