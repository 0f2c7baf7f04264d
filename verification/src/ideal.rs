//! The meaning of device programs: what they do on a device without faults
//! that computes exactly.
//!
//! Numbers are counted in units of 2 to the power of -149, the smallest
//! positive number of single precision, so every number of that format is a
//! whole number of units.
use vstd::arithmetic::power2::pow2;
use vstd::prelude::*;

#[allow(unused_imports)]
use crate::benchmarks::PushCount1f;
#[allow(unused_imports)]
use crate::compute::{pool_storage_buffers, Binding, Kernel, SHADER_STAGE_COMPUTE};
#[allow(unused_imports)]
use crate::float_bits::Float32;
#[allow(unused_imports)]
use crate::program::{
    compute_barrier, dispatch, dispatch_1d, group_count, law_groups_cover_elements,
    transfer_barrier, Command, PushData, StepView, BIND_POINT_COMPUTE,
};

verus! {

/// A descriptor set: the kernel that it was made for, and the buffer behind
/// each of its bindings.
pub struct BoundSet {
    pub kernel: Kernel,
    pub bindings: Map<u32, usize>,
}

/// What is left of a descriptor pool.
pub struct PoolRest {
    pub sets: int,
    pub storage_buffers: int,
}

/// A device while it performs a program.
pub struct Device {
    /// The contents of the living buffers, one entry for every four bytes.
    pub buffers: Map<usize, Seq<int>>,
    pub sets: Map<usize, BoundSet>,
    pub pool: Option<PoolRest>,
    /// What uploads take from.
    pub inputs: Seq<Seq<int>>,
    /// What was downloaded, in order.
    pub downloads: Seq<Seq<int>>,
    /// What was read by single words and numbers, in order.
    pub reads: Seq<int>,
    /// What a new buffer happens to hold.
    pub noise: spec_fn(usize, int) -> int,
    /// The pipeline, descriptor set and push constants of the command buffer.
    pub kernel: Option<Kernel>,
    pub set: Option<usize>,
    pub push: PushData,
    /// The buffers that kernels wrote since the last barrier for it.
    pub kernel_writes: Set<usize>,
    /// The buffers that transfers wrote since the last barrier for it.
    pub transfer_writes: Set<usize>,
    /// Whether every step so far was allowed.
    pub sound: bool,
}

/// How many units the number one has.
pub open spec fn one() -> int {
    pow2(149) as int
}

/// A number of units times a factor.
pub open spec fn times(units: int, factor: int) -> int {
    units * factor / one()
}

/// How many of the first `n` elements differ from a value.
pub open spec fn mismatches(data: Seq<int>, value: int, n: nat) -> nat
    decreases n,
{
    if n == 0 {
        0
    } else {
        mismatches(data, value, (n - 1) as nat) + if data[n - 1] != value {
            1nat
        } else {
            0nat
        }
    }
}

/// The first `k` terms of the product of a row of one square matrix with a
/// column of another.
pub open spec fn dot(a: Seq<int>, b: Seq<int>, n: nat, row: int, col: int, k: nat) -> int
    decreases k,
{
    if k == 0 {
        0
    } else {
        dot(a, b, n, row, col, (k - 1) as nat) + a[row * n + (k - 1)] * b[(k - 1) * n + col]
    }
}

/// How many elements a dispatch reaches that has 256 threads in a group.
pub open spec fn reached(count: u32, groups: u32) -> nat {
    if count <= groups * 256 {
        count as nat
    } else {
        (groups * 256) as nat
    }
}

/// An element-wise kernel's output: new values where it reaches, old ones
/// elsewhere.
pub open spec fn overwritten(old: Seq<int>, n: nat, new: spec_fn(int) -> int) -> Seq<int> {
    Seq::new(
        old.len(),
        |i: int|
            if i < n {
                new(i)
            } else {
                old[i]
            },
    )
}

/// The matrix product's output for square matrices of `n` rows, where the
/// groups of 16 x 16 threads reach.
pub open spec fn multiplied(
    a: Seq<int>,
    b: Seq<int>,
    old: Seq<int>,
    n: nat,
    x: u32,
    y: u32,
) -> Seq<int> {
    Seq::new(
        old.len(),
        |i: int|
            if i < n * n && i % (n as int) < x * 16 && i / (n as int) < y * 16 {
                dot(a, b, n, i / (n as int), i % (n as int), n) / one()
            } else {
                old[i]
            },
    )
}

impl Device {
    /// Whether nothing is alive.
    pub open spec fn bare(self) -> bool {
        &&& self.buffers =~= Map::<usize, Seq<int>>::empty()
        &&& self.sets =~= Map::<usize, BoundSet>::empty()
        &&& self.pool is None
    }

    /// The buffer behind a binding of the current descriptor set.
    pub open spec fn bound(self, binding: u32) -> usize {
        self.sets[self.set->0].bindings[binding]
    }

    /// The contents behind a binding of the current descriptor set.
    pub open spec fn data(self, binding: u32) -> Seq<int> {
        self.buffers[self.bound(binding)]
    }

    /// Whether a binding of the current descriptor set leads to a living
    /// buffer of at least `length` elements, and all writes to it are seen.
    pub open spec fn usable(self, binding: u32, length: nat) -> bool {
        &&& self.sets[self.set->0].bindings.dom().contains(binding)
        &&& self.buffers.dom().contains(self.bound(binding))
        &&& self.data(binding).len() >= length
        &&& !self.kernel_writes.contains(self.bound(binding))
        &&& !self.transfer_writes.contains(self.bound(binding))
    }

    /// Whether the current kernel may be started.
    pub open spec fn may_dispatch(self) -> bool {
        &&& self.kernel is Some
        &&& self.set is Some
        &&& self.sets.dom().contains(self.set->0)
        &&& self.sets[self.set->0].kernel == self.kernel->0
        &&& self.push.size() == (self.kernel->0).push_size()
        &&& match (self.kernel->0, self.push) {
            (Kernel::Fill, PushData::Count1f(push)) => self.usable(0, push.count as nat),
            (Kernel::Verify, PushData::Count1f(push)) => {
                &&& self.usable(0, push.count as nat)
                &&& self.usable(1, 1)
                &&& self.bound(0) != self.bound(1)
            },
            (Kernel::VectorAdd, PushData::Count1f(push)) => {
                &&& self.usable(0, push.count as nat)
                &&& self.usable(1, push.count as nat)
                &&& self.usable(2, push.count as nat)
                &&& self.bound(0) != self.bound(2)
                &&& self.bound(1) != self.bound(2)
            },
            (Kernel::Scale, PushData::Count1f(push)) => {
                &&& self.usable(0, push.count as nat)
                &&& self.usable(1, push.count as nat)
                &&& self.bound(0) != self.bound(1)
            },
            (Kernel::Matmul, PushData::Matmul(push)) => {
                &&& self.usable(0, (push.n * push.n) as nat)
                &&& self.usable(1, (push.n * push.n) as nat)
                &&& self.usable(2, (push.n * push.n) as nat)
                &&& self.bound(0) != self.bound(2)
                &&& self.bound(1) != self.bound(2)
            },
            _ => false,
        }
    }

    /// The binding that the current kernel writes, and its new contents.
    pub open spec fn written(self, x: u32, y: u32) -> (u32, Seq<int>) {
        match (self.kernel->0, self.push) {
            (Kernel::Fill, PushData::Count1f(push)) => (
                0,
                overwritten(
                    self.data(0),
                    reached(push.count, x),
                    |i: int| push.value.units(),
                ),
            ),
            (Kernel::Verify, PushData::Count1f(push)) => (
                1,
                self.data(1).update(
                    0,
                    self.data(1)[0] + mismatches(
                        self.data(0),
                        push.value.units(),
                        reached(push.count, x),
                    ),
                ),
            ),
            (Kernel::VectorAdd, PushData::Count1f(push)) => (
                2,
                overwritten(
                    self.data(2),
                    reached(push.count, x),
                    |i: int| self.data(0)[i] + times(self.data(1)[i], push.value.units()),
                ),
            ),
            (Kernel::Scale, PushData::Count1f(push)) => (
                1,
                overwritten(
                    self.data(1),
                    reached(push.count, x),
                    |i: int| times(self.data(0)[i], push.value.units()),
                ),
            ),
            (Kernel::Matmul, PushData::Matmul(push)) => (
                2,
                multiplied(self.data(0), self.data(1), self.data(2), push.n as nat, x, y),
            ),
            _ => (0, seq![]),
        }
    }

    /// The device after a command.
    pub open spec fn after_command(self, command: Command) -> Device {
        match command {
            Command::BindPipeline { bind_point, kernel } => Device {
                kernel: Some(kernel),
                sound: self.sound && bind_point == BIND_POINT_COMPUTE,
                ..self
            },
            Command::BindDescriptorSet { bind_point, kernel, first_set, set } => Device {
                set: Some(set),
                sound: self.sound && bind_point == BIND_POINT_COMPUTE && first_set == 0
                    && self.sets.dom().contains(set) && self.sets[set].kernel
                    == kernel,
                ..self
            },
            Command::PushConstants { kernel, stage_flags, range_offset, data } => Device {
                push: data,
                sound: self.sound && stage_flags == SHADER_STAGE_COMPUTE && range_offset == 0 && data.size() == kernel.push_size(),
                ..self
            },
            Command::Dispatch { x, y, z } => {
                let (binding, contents) = self.written(x, y);
                Device {
                    buffers: self.buffers.insert(self.bound(binding), contents),
                    kernel_writes: self.kernel_writes.insert(self.bound(binding)),
                    sound: self.sound && z == 1 && self.may_dispatch(),
                    ..self
                }
            },
            Command::FillBuffer { buffer, offset, size, word } => Device {
                buffers: self.buffers.insert(
                    buffer,
                    Seq::new(
                        self.buffers[buffer].len(),
                        |i: int|
                            if offset <= 4 * i && 4 * i < offset + size {
                                word as int
                            } else {
                                self.buffers[buffer][i]
                            },
                    ),
                ),
                transfer_writes: self.transfer_writes.insert(buffer),
                sound: self.sound && self.buffers.dom().contains(buffer) && offset % 4 == 0 && size
                    % 4 == 0 && offset + size <= 4 * self.buffers[buffer].len()
                    && !self.kernel_writes.contains(buffer) && !self.transfer_writes.contains(
                    buffer,
                ),
                ..self
            },
            Command::MemoryBarrier { .. } => Device {
                transfer_writes: if command == transfer_barrier() {
                    Set::empty()
                } else {
                    self.transfer_writes
                },
                kernel_writes: if command == compute_barrier() {
                    Set::empty()
                } else {
                    self.kernel_writes
                },
                ..self
            },
        }
    }

    /// The device after commands.
    pub open spec fn after_commands(self, commands: Seq<Command>) -> Device
        decreases commands.len(),
    {
        if commands.len() == 0 {
            self
        } else {
            self.after_commands(commands.drop_last()).after_command(commands.last())
        }
    }

    /// The device with an empty command buffer and nothing pending.
    pub open spec fn idle(self) -> Device {
        Device {
            kernel: None,
            set: None,
            push: PushData::Empty,
            kernel_writes: Set::empty(),
            transfer_writes: Set::empty(),
            ..self
        }
    }

    /// The bindings of a set after buffers are bound one after the other.
    pub open spec fn rebound(old: Map<u32, usize>, bindings: Seq<Binding>) -> Map<u32, usize>
        decreases bindings.len(),
    {
        if bindings.len() == 0 {
            old
        } else {
            Self::rebound(old, bindings.drop_last()).insert(
                bindings.last().binding,
                bindings.last().buffer,
            )
        }
    }

    /// Whether a buffer may be bound to a set.
    pub open spec fn bindable(self, set: usize, binding: Binding) -> bool {
        &&& binding.binding < self.sets[set].kernel.buffers()
        &&& self.buffers.dom().contains(binding.buffer)
        &&& binding.bytes == 4 * self.buffers[binding.buffer].len()
    }

    /// The device after a step.
    pub open spec fn after_step(self, step: StepView) -> Device {
        match step {
            StepView::AllocBuffer { buffer, bytes } => Device {
                buffers: self.buffers.insert(
                    buffer,
                    Seq::new((bytes / 4) as nat, |i: int| (self.noise)(buffer, i)),
                ),
                sound: self.sound && !self.buffers.dom().contains(buffer) && bytes > 0 && bytes % 4
                    == 0,
                ..self
            },
            StepView::Upload { buffer, input, count } => Device {
                buffers: self.buffers.insert(
                    buffer,
                    overwritten(
                        self.buffers[buffer],
                        count as nat,
                        |i: int| self.inputs[input as int][i],
                    ),
                ),
                sound: self.sound && self.buffers.dom().contains(buffer)
                    && self.buffers[buffer].len() >= count && input < self.inputs.len()
                    && self.inputs[input as int].len() == count,
                ..self
            },
            StepView::CreatePool { max_sets, max_storage_buffers } => Device {
                pool: Some(
                    PoolRest {
                        sets: max_sets as int,
                        storage_buffers: pool_storage_buffers(max_sets, max_storage_buffers),
                    },
                ),
                sound: self.sound && self.pool is None,
                ..self
            },
            StepView::AllocSet { set, kernel } => Device {
                sets: self.sets.insert(set, BoundSet { kernel, bindings: Map::empty() }),
                pool: Some(
                    PoolRest {
                        sets: (self.pool->0).sets - 1,
                        storage_buffers: (self.pool->0).storage_buffers - kernel.buffers(),
                    },
                ),
                sound: self.sound && self.pool is Some && (self.pool->0).sets >= 1
                    && (self.pool->0).storage_buffers >= kernel.buffers()
                    && !self.sets.dom().contains(set),
                ..self
            },
            StepView::Bind { set, bindings } => Device {
                sets: self.sets.insert(
                    set,
                    BoundSet {
                        kernel: self.sets[set].kernel,
                        bindings: Self::rebound(self.sets[set].bindings, bindings),
                    },
                ),
                sound: self.sound && self.sets.dom().contains(set) && (forall|i: int|
                    0 <= i < bindings.len() ==> self.bindable(set, #[trigger] bindings[i])),
                ..self
            },
            StepView::Execute { commands } => self.idle().after_commands(commands).idle(),
            StepView::Download { buffer, count } => Device {
                downloads: self.downloads.push(self.buffers[buffer].take(count as int)),
                sound: self.sound && self.buffers.dom().contains(buffer)
                    && self.buffers[buffer].len() >= count,
                ..self
            },
            StepView::ReadFloat { buffer, offset } => self.after_read(buffer, offset),
            StepView::ReadWord { buffer, offset } => self.after_read(buffer, offset),
            StepView::StartClock => self,
            StepView::StopClock => self,
            StepView::DestroyPool => Device {
                pool: None,
                sets: Map::empty(),
                sound: self.sound && self.pool is Some,
                ..self
            },
            StepView::DestroyBuffer { buffer } => Device {
                buffers: self.buffers.remove(buffer),
                sound: self.sound && self.buffers.dom().contains(buffer),
                ..self
            },
        }
    }

    /// The device after four bytes are read.
    pub open spec fn after_read(self, buffer: usize, offset: u64) -> Device {
        Device {
            reads: self.reads.push(self.buffers[buffer][(offset / 4) as int]),
            sound: self.sound && self.buffers.dom().contains(buffer) && offset % 4 == 0 && offset
                / 4 < self.buffers[buffer].len(),
            ..self
        }
    }

    /// The device after steps.
    pub open spec fn after_steps(self, steps: Seq<StepView>) -> Device
        decreases steps.len(),
    {
        if steps.len() == 0 {
            self
        } else {
            self.after_steps(steps.drop_last()).after_step(steps.last())
        }
    }
}

/// Performing one more step.
pub proof fn lemma_one_more_step(device: Device, steps: Seq<StepView>, step: StepView)
    ensures
        device.after_steps(steps.push(step)) == device.after_steps(steps).after_step(step),
{
    assert(steps.push(step).drop_last() =~= steps);
}

/// Performing the next of some steps.
pub proof fn lemma_next_step(device: Device, steps: Seq<StepView>, done: int)
    requires
        0 <= done < steps.len(),
    ensures
        device.after_steps(steps.take(done + 1)) == device.after_steps(
            steps.take(done),
        ).after_step(steps[done]),
{
    assert(steps.take(done + 1).drop_last() =~= steps.take(done));
}

/// Performing steps in two parts.
pub proof fn lemma_steps_in_parts(device: Device, first: Seq<StepView>, second: Seq<StepView>)
    ensures
        device.after_steps(first + second) == device.after_steps(first).after_steps(second),
    decreases second.len(),
{
    if second.len() == 0 {
        assert(first + second =~= first);
    } else {
        assert((first + second).drop_last() =~= first + second.drop_last());
        lemma_steps_in_parts(device, first, second.drop_last());
    }
}

/// Performing one more command.
pub proof fn lemma_one_more_command(device: Device, commands: Seq<Command>, command: Command)
    ensures
        device.after_commands(commands.push(command)) == device.after_commands(
            commands,
        ).after_command(command),
{
    assert(commands.push(command).drop_last() =~= commands);
}

/// Performing commands in two parts.
pub proof fn lemma_commands_in_parts(device: Device, first: Seq<Command>, second: Seq<Command>)
    ensures
        device.after_commands(first + second) == device.after_commands(first).after_commands(
            second,
        ),
    decreases second.len(),
{
    if second.len() == 0 {
        assert(first + second =~= first);
    } else {
        assert((first + second).drop_last() =~= first + second.drop_last());
        lemma_commands_in_parts(device, first, second.drop_last());
    }
}

/// The device before the groups of a dispatch are started.
pub open spec fn prepared(device: Device, kernel: Kernel, set: usize, data: PushData) -> Device {
    Device {
        kernel: Some(kernel),
        set: Some(set),
        push: data,
        sound: device.sound && device.sets.dom().contains(set) && device.sets[set].kernel == kernel
            && data.size() == kernel.push_size(),
        ..device
    }
}

/// The commands of a dispatch, as one.
pub proof fn lemma_dispatch(
    device: Device,
    kernel: Kernel,
    set: usize,
    data: PushData,
    x: u32,
    y: u32,
)
    requires
        !(data is Empty),
    ensures
        device.after_commands(dispatch(kernel, set, data, x, y)) == prepared(
            device,
            kernel,
            set,
            data,
        ).after_command(Command::Dispatch { x, y, z: 1 }),
{
    let none = Seq::<Command>::empty();
    let bind_point = BIND_POINT_COMPUTE;
    let pipeline = Command::BindPipeline { bind_point, kernel };
    let descriptors = Command::BindDescriptorSet { bind_point, kernel, first_set: 0, set };
    let constants = Command::PushConstants {
        kernel,
        stage_flags: SHADER_STAGE_COMPUTE,
        range_offset: 0,
        data,
    };
    let first = none.push(pipeline);
    let second = first.push(descriptors);
    let third = second.push(constants);
    lemma_one_more_command(device, none, pipeline);
    lemma_one_more_command(device, first, descriptors);
    lemma_one_more_command(device, second, constants);
    lemma_one_more_command(device, third, Command::Dispatch { x, y, z: 1 });
    assert(dispatch(kernel, set, data, x, y) =~= third.push(Command::Dispatch { x, y, z: 1 }));
}

/// The push constants of an element-wise kernel.
pub open spec fn count_push(count: usize, value: Float32) -> PushData {
    PushData::Count1f(PushCount1f { count: count as u32, value })
}

/// Whether a descriptor set of a kernel leads to a living buffer of so many
/// elements, all of whose writes are seen.
pub open spec fn leads_to(
    device: Device,
    set: usize,
    binding: u32,
    buffer: usize,
    count: usize,
) -> bool {
    &&& device.sets[set].bindings.dom().contains(binding)
    &&& device.sets[set].bindings[binding] == buffer
    &&& device.buffers.dom().contains(buffer)
    &&& device.buffers[buffer].len() == count
    &&& !device.kernel_writes.contains(buffer)
    &&& !device.transfer_writes.contains(buffer)
}

/// The device after a kernel has written a buffer.
pub open spec fn kernel_wrote(
    device: Device,
    kernel: Kernel,
    set: usize,
    data: PushData,
    buffer: usize,
    contents: Seq<int>,
) -> Device {
    Device {
        kernel: Some(kernel),
        set: Some(set),
        push: data,
        buffers: device.buffers.insert(buffer, contents),
        kernel_writes: device.kernel_writes.insert(buffer),
        ..device
    }
}

proof fn lemma_all_reached(count: usize)
    requires
        count + 255 <= u32::MAX,
    ensures
        reached(count as u32, group_count(count as nat, 256) as u32) == count,
{
    law_groups_cover_elements(count as nat, 256);
    assert(group_count(count as nat, 256) <= count + 255);
}

/// What the fill kernel does.
pub proof fn lemma_fill(device: Device, set: usize, buffer: usize, count: usize, value: Float32)
    requires
        device.sound,
        count + 255 <= u32::MAX,
        device.sets.dom().contains(set),
        device.sets[set].kernel == Kernel::Fill,
        leads_to(device, set, 0, buffer, count),
    ensures
        device.after_commands(
            dispatch_1d(Kernel::Fill, set, count_push(count, value), count as u32, 256),
        ) == kernel_wrote(
            device,
            Kernel::Fill,
            set,
            count_push(count, value),
            buffer,
            Seq::new(count as nat, |i: int| value.units()),
        ),
{
    let data = count_push(count, value);
    let groups = group_count(count as nat, 256) as u32;
    lemma_all_reached(count);
    lemma_dispatch(device, Kernel::Fill, set, data, groups, 1);
    let ready = prepared(device, Kernel::Fill, set, data);
    assert(ready.may_dispatch());
    assert(ready.written(groups, 1).1 =~= Seq::new(count as nat, |i: int| value.units()));
}

/// What the addition does.
pub proof fn lemma_add(
    device: Device,
    set: usize,
    a: usize,
    b: usize,
    c: usize,
    count: usize,
    value: Float32,
)
    requires
        device.sound,
        count + 255 <= u32::MAX,
        device.sets.dom().contains(set),
        device.sets[set].kernel == Kernel::VectorAdd,
        leads_to(device, set, 0, a, count),
        leads_to(device, set, 1, b, count),
        leads_to(device, set, 2, c, count),
        a != c,
        b != c,
    ensures
        device.after_commands(
            dispatch_1d(Kernel::VectorAdd, set, count_push(count, value), count as u32, 256),
        ) == kernel_wrote(
            device,
            Kernel::VectorAdd,
            set,
            count_push(count, value),
            c,
            Seq::new(
                count as nat,
                |i: int| device.buffers[a][i] + times(device.buffers[b][i], value.units()),
            ),
        ),
{
    let data = count_push(count, value);
    let groups = group_count(count as nat, 256) as u32;
    lemma_all_reached(count);
    lemma_dispatch(device, Kernel::VectorAdd, set, data, groups, 1);
    let ready = prepared(device, Kernel::VectorAdd, set, data);
    assert(ready.may_dispatch());
    assert(ready.written(groups, 1).1 =~= Seq::new(
        count as nat,
        |i: int| device.buffers[a][i] + times(device.buffers[b][i], value.units()),
    ));
}

/// What the scaling does.
pub proof fn lemma_scale(
    device: Device,
    set: usize,
    a: usize,
    c: usize,
    count: usize,
    value: Float32,
)
    requires
        device.sound,
        count + 255 <= u32::MAX,
        device.sets.dom().contains(set),
        device.sets[set].kernel == Kernel::Scale,
        leads_to(device, set, 0, a, count),
        leads_to(device, set, 1, c, count),
        a != c,
    ensures
        device.after_commands(
            dispatch_1d(Kernel::Scale, set, count_push(count, value), count as u32, 256),
        ) == kernel_wrote(
            device,
            Kernel::Scale,
            set,
            count_push(count, value),
            c,
            Seq::new(count as nat, |i: int| times(device.buffers[a][i], value.units())),
        ),
{
    let data = count_push(count, value);
    let groups = group_count(count as nat, 256) as u32;
    lemma_all_reached(count);
    lemma_dispatch(device, Kernel::Scale, set, data, groups, 1);
    let ready = prepared(device, Kernel::Scale, set, data);
    assert(ready.may_dispatch());
    assert(ready.written(groups, 1).1 =~= Seq::new(
        count as nat,
        |i: int| times(device.buffers[a][i], value.units()),
    ));
}

/// What the comparison does to its counter.
pub proof fn lemma_verify(
    device: Device,
    set: usize,
    a: usize,
    counter: usize,
    count: usize,
    value: Float32,
)
    requires
        device.sound,
        count + 255 <= u32::MAX,
        device.sets.dom().contains(set),
        device.sets[set].kernel == Kernel::Verify,
        leads_to(device, set, 0, a, count),
        leads_to(device, set, 1, counter, 1),
        a != counter,
    ensures
        device.after_commands(
            dispatch_1d(Kernel::Verify, set, count_push(count, value), count as u32, 256),
        ) == kernel_wrote(
            device,
            Kernel::Verify,
            set,
            count_push(count, value),
            counter,
            seq![
                device.buffers[counter][0] + mismatches(
                    device.buffers[a],
                    value.units(),
                    count as nat,
                ),
            ],
        ),
{
    let data = count_push(count, value);
    let groups = group_count(count as nat, 256) as u32;
    lemma_all_reached(count);
    lemma_dispatch(device, Kernel::Verify, set, data, groups, 1);
    let ready = prepared(device, Kernel::Verify, set, data);
    assert(ready.may_dispatch());
    assert(ready.written(groups, 1).1 =~= seq![
        device.buffers[counter][0] + mismatches(device.buffers[a], value.units(), count as nat),
    ]);
}

/// The places of the elements that differ from a value.
pub open spec fn differing(data: Seq<int>, value: int) -> Set<int> {
    Set::new(|i: int| 0 <= i < data.len() && data[i] != value)
}

/// As many elements are counted as differ from the value: one at any place is
/// enough for a count above zero.
pub proof fn law_mismatches_are_counted(data: Seq<int>, value: int)
    ensures
        differing(data, value).finite(),
        mismatches(data, value, data.len()) == differing(data, value).len(),
        differing(data, value).len() <= data.len(),
        forall|i: int|
            0 <= i < data.len() && #[trigger] data[i] != value ==> differing(data, value).len() > 0,
{
    lemma_mismatches(data, value, data.len());
    assert(differing(data, value) =~= Set::new(|i: int| 0 <= i < data.len() && data[i] != value));
    assert forall|i: int| 0 <= i < data.len() && #[trigger] data[i] != value implies differing(
        data,
        value,
    ).len() > 0 by {
        assert(differing(data, value).contains(i));
        if differing(data, value).len() == 0 {
            assert(differing(data, value) =~= Set::empty());
        }
    }
}

proof fn lemma_mismatches(data: Seq<int>, value: int, n: nat)
    requires
        n <= data.len(),
    ensures
        Set::new(|i: int| 0 <= i < n && data[i] != value).finite(),
        mismatches(data, value, n) == Set::new(|i: int| 0 <= i < n && data[i] != value).len(),
        mismatches(data, value, n) <= n,
    decreases n,
{
    let now = Set::new(|i: int| 0 <= i < n && data[i] != value);
    if n == 0 {
        assert(now =~= Set::empty());
    } else {
        let before = Set::new(|i: int| 0 <= i < n - 1 && data[i] != value);
        lemma_mismatches(data, value, (n - 1) as nat);
        if data[n - 1] != value {
            assert(now =~= before.insert(n - 1));
        } else {
            assert(now =~= before);
        }
    }
}

impl Device {
    /// The device after its memory came to hold something else in a buffer.
    pub open spec fn holding(self, buffer: usize, contents: Seq<int>) -> Device {
        Device { buffers: self.buffers.insert(buffer, contents), ..self }
    }
}

/// Numbers that all have a value hold no mismatch with it.
pub proof fn lemma_no_mismatches(data: Seq<int>, value: int, n: nat)
    requires
        n <= data.len(),
        forall|i: int| 0 <= i < n ==> data[i] == value,
    ensures
        mismatches(data, value, n) == 0,
    decreases n,
{
    if n > 0 {
        lemma_no_mismatches(data, value, (n - 1) as nat);
    }
}

} // verus!
