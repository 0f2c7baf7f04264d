use ash::vk;
use gpubench::benchmarks::{PushCount1f, PushMatmul};
use gpubench::compute::{
    bind_storage_buffers, create_descriptor_pool, Binding, ComputePipeline, DescriptorWrite, Kernel,
    LayoutBinding, PoolSizes, PushConstantRange, Shaders, DESCRIPTOR_STORAGE_BUFFER,
    SHADER_STAGE_COMPUTE,
};
use gpubench::float_bits::Float32;
use gpubench::program::{
    cmd_global_compute_barrier, cmd_transfer_barrier, record_dispatch_1d, record_dispatch_2d,
    Command, Expect, PushData, Step, Task, ACCESS_SHADER_READ_WRITE, ACCESS_SHADER_WRITE,
    ACCESS_TRANSFER_WRITE, BIND_POINT_COMPUTE, STAGE_COMPUTE_SHADER, STAGE_TRANSFER,
};
use gpubench::session::{judge, Event, Outcome, Session};

#[test]
fn kernels_are_built_in_order() {
    let names: Vec<&str> = Shaders::new().kernels.iter().map(|k| k.source().name).collect();
    assert_eq!(
        names,
        vec!["fill.comp", "verify.comp", "matmul.comp", "vector_add.comp", "scale.comp"]
    );
}

#[test]
fn kernels_have_the_shape_of_their_shaders() {
    let shapes: Vec<(u32, u32)> = Shaders::new()
        .kernels
        .iter()
        .map(|k| (k.source().num_storage_buffers, k.source().push_constant_size))
        .collect();
    assert_eq!(shapes, vec![(1, 8), (2, 8), (3, 4), (3, 8), (2, 8)]);
    for kernel in Shaders::new().kernels {
        let source = kernel.source();
        assert!(source.source.contains("#version 450"));
        let bindings = source.source.matches("binding = ").count();
        assert_eq!(bindings as u32, source.num_storage_buffers);
    }
}

#[test]
fn words_are_those_of_vulkan() {
    assert_eq!(DESCRIPTOR_STORAGE_BUFFER, vk::DescriptorType::STORAGE_BUFFER.as_raw());
    assert_eq!(SHADER_STAGE_COMPUTE, vk::ShaderStageFlags::COMPUTE.as_raw());
    assert_eq!(BIND_POINT_COMPUTE, vk::PipelineBindPoint::COMPUTE.as_raw());
    assert_eq!(STAGE_COMPUTE_SHADER, vk::PipelineStageFlags::COMPUTE_SHADER.as_raw());
    assert_eq!(STAGE_TRANSFER, vk::PipelineStageFlags::TRANSFER.as_raw());
    assert_eq!(ACCESS_SHADER_WRITE, vk::AccessFlags::SHADER_WRITE.as_raw());
    assert_eq!(ACCESS_TRANSFER_WRITE, vk::AccessFlags::TRANSFER_WRITE.as_raw());
    assert_eq!(
        ACCESS_SHADER_READ_WRITE,
        (vk::AccessFlags::SHADER_READ | vk::AccessFlags::SHADER_WRITE).as_raw()
    );
}

#[test]
fn pipelines_number_their_bindings() {
    let pipeline = ComputePipeline::new(3, 8);
    let binding = |binding| LayoutBinding {
        binding,
        descriptor_type: 7,
        descriptor_count: 1,
        stage_flags: 0x20,
    };
    assert_eq!(pipeline.bindings, vec![binding(0), binding(1), binding(2)]);
    assert_eq!(
        pipeline.push_constants,
        Some(PushConstantRange { stage_flags: 0x20, offset: 0, size: 8 })
    );
    assert_eq!(pipeline.stage, 0x20);
    assert_eq!(pipeline.entry_point, "main");
    let pipeline = ComputePipeline::new(0, 0);
    assert!(pipeline.bindings.is_empty());
    assert_eq!(pipeline.push_constants, None);
}

#[test]
fn pools_have_room_for_all_sets() {
    let sizes = create_descriptor_pool(4, 9);
    assert_eq!(sizes, PoolSizes { max_sets: 4, descriptor_type: 7, storage_buffers: 36 });
    assert_eq!(create_descriptor_pool(1, 3).storage_buffers, 3);
    assert_eq!(create_descriptor_pool(0, 3).storage_buffers, 0);
    assert_eq!(create_descriptor_pool(65_535, 65_537).storage_buffers, u32::MAX);
}

#[test]
fn buffers_are_bound_from_their_start() {
    let bindings = vec![
        Binding { binding: 1, buffer: 7, bytes: 64 },
        Binding { binding: 0, buffer: 2, bytes: 4 },
    ];
    assert_eq!(
        bind_storage_buffers(&bindings),
        vec![
            DescriptorWrite { binding: 1, descriptor_type: 7, buffer: 7, offset: 0, range: 64 },
            DescriptorWrite { binding: 0, descriptor_type: 7, buffer: 2, offset: 0, range: 4 },
        ]
    );
}

#[test]
fn dispatches_are_recorded_in_order() {
    let data = PushData::Count1f(PushCount1f { count: 1000, value: Float32 { bits: 0 } });
    let kernel = Kernel::Fill;
    let mut commands = Vec::new();
    cmd_transfer_barrier(&mut commands);
    record_dispatch_1d(&mut commands, Kernel::Fill, 4, data, 1000, 256);
    cmd_global_compute_barrier(&mut commands);
    assert_eq!(
        commands,
        vec![
            Command::MemoryBarrier {
                src_stage: 0x1000,
                dst_stage: 0x800,
                src_access: 0x1000,
                dst_access: 0x60,
            },
            Command::BindPipeline { bind_point: 1, kernel },
            Command::BindDescriptorSet { bind_point: 1, kernel, first_set: 0, set: 4 },
            Command::PushConstants { kernel, stage_flags: 0x20, range_offset: 0, data },
            Command::Dispatch { x: 4, y: 1, z: 1 },
            Command::MemoryBarrier {
                src_stage: 0x800,
                dst_stage: 0x800,
                src_access: 0x40,
                dst_access: 0x60,
            },
        ]
    );
}

#[test]
fn empty_push_constants_are_not_pushed() {
    let mut commands = Vec::new();
    record_dispatch_1d(&mut commands, Kernel::Scale, 0, PushData::Empty, 1, 256);
    assert_eq!(
        commands,
        vec![
            Command::BindPipeline { bind_point: 1, kernel: Kernel::Scale },
            Command::BindDescriptorSet {
                bind_point: 1,
                kernel: Kernel::Scale,
                first_set: 0,
                set: 0,
            },
            Command::Dispatch { x: 1, y: 1, z: 1 },
        ]
    );
}

#[test]
fn groups_cover_all_elements() {
    let groups = |count: u32| {
        let mut commands = Vec::new();
        record_dispatch_1d(&mut commands, Kernel::Fill, 0, PushData::Empty, count, 256);
        match commands.last() {
            Some(Command::Dispatch { x, .. }) => *x,
            _ => panic!("no dispatch"),
        }
    };
    assert_eq!(groups(0), 0);
    assert_eq!(groups(1), 1);
    assert_eq!(groups(256), 1);
    assert_eq!(groups(257), 2);
    assert_eq!(groups(u32::MAX - 255), 16_777_215);
}

#[test]
fn square_dispatches_have_two_dimensions() {
    let data = PushData::Matmul(PushMatmul { n: 100 });
    let mut commands = Vec::new();
    record_dispatch_2d(&mut commands, Kernel::Matmul, 0, data, 100, 16);
    assert_eq!(commands[3], Command::Dispatch { x: 7, y: 7, z: 1 });
}

fn task(place: usize, expect: Expect) -> Task {
    Task {
        step: Step::DestroyBuffer { buffer: place },
        expect,
        on_failure: vec![Step::DestroyPool],
        on_mismatch: vec![Step::StartClock, Step::StopClock],
        round: 10 + place,
    }
}

fn places(events: &[Event], tasks: Vec<Task>) -> (Vec<String>, Session) {
    let mut session = Session::new(tasks);
    let mut seen = Vec::new();
    for event in events {
        if let Some(step) = session.current() {
            seen.push(format!("{:?}", step));
        }
        session.advance(*event);
    }
    (seen, session)
}

#[test]
fn accepted_programs_run_through() {
    let tasks = vec![task(0, Expect::Success), task(1, Expect::WordIs(5))];
    let (seen, session) = places(&[Event::Done, Event::Word(5), Event::Done], tasks);
    assert_eq!(seen, vec!["DestroyBuffer { buffer: 0 }", "DestroyBuffer { buffer: 1 }"]);
    assert_eq!(session.outcome(), Outcome::Accepted);
    assert_eq!(session.position(), 2);
    assert_eq!(session.stopped_round(), None);
}

#[test]
fn failed_programs_do_what_is_left() {
    let tasks = vec![task(0, Expect::Success), task(1, Expect::Success)];
    let (seen, session) = places(&[Event::Failed, Event::Done, Event::Done], tasks);
    assert_eq!(seen, vec!["DestroyBuffer { buffer: 0 }", "DestroyPool"]);
    assert_eq!(session.outcome(), Outcome::Failed);
    assert_eq!(session.position(), 0);
    assert_eq!(session.stopped_round(), Some(10));
}

#[test]
fn mismatches_do_what_is_left_for_them() {
    let tasks = vec![task(0, Expect::Success), task(1, Expect::WordIs(0))];
    let events = [Event::Word(3), Event::Word(3), Event::Done, Event::Done, Event::Done];
    let (seen, session) = places(&events, tasks);
    assert_eq!(
        seen,
        vec!["DestroyBuffer { buffer: 0 }", "DestroyBuffer { buffer: 1 }", "StartClock", "StopClock"]
    );
    assert_eq!(session.outcome(), Outcome::Mismatch);
    assert_eq!(session.stopped_round(), Some(11));
}

#[test]
fn events_are_held_against_expectations() {
    let float = |v: f32| Float32 { bits: v.to_bits() };
    let three = Expect::FloatIs(float(3.0));
    assert_eq!(judge(three, Event::Float(float(3.0))), Outcome::Accepted);
    assert_eq!(judge(three, Event::Float(float(3.5))), Outcome::Mismatch);
    assert_eq!(judge(three, Event::Float(float(f32::NAN))), Outcome::Mismatch);
    assert_eq!(judge(three, Event::Done), Outcome::Mismatch);
    assert_eq!(judge(three, Event::Failed), Outcome::Failed);
    let zero = Expect::FloatIs(float(0.0));
    assert_eq!(judge(zero, Event::Float(float(-0.0))), Outcome::Accepted);
    assert_eq!(judge(Expect::Success, Event::Word(9)), Outcome::Accepted);
    assert_eq!(judge(Expect::Success, Event::Failed), Outcome::Failed);
    assert_eq!(judge(Expect::WordIs(0), Event::Word(1)), Outcome::Mismatch);
}
