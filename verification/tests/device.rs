//! A device in software, which performs the programs.
use std::collections::HashMap;

use gpubench::benchmarks::bandwidth::{bandwidth_tasks, stop_error, BandwidthError};
use gpubench::benchmarks::matmul::{
    iterations, run_correctness_gate, run_single_size, size_seeds, GATE_SEED_A, GATE_SEED_B,
    GATE_SIZE, REPEATS,
};
use gpubench::benchmarks::precision::{
    check_add_sub, check_identity_matmul, check_scale_mul_div, identity_matrix, VECTOR_COUNT,
};
use gpubench::benchmarks::square::single_product_tasks;
use gpubench::benchmarks::stability::{iteration_tasks, reference_tasks, release_tasks};
use gpubench::benchmarks::vram::{setup_tasks, ChunkReading, VramTest, CHUNK_BYTES};
use gpubench::benchmarks::{lcg_vec, lcg_vec_scaled};
use gpubench::compute::{bind_storage_buffers, create_descriptor_pool, Kernel};
use gpubench::float_bits::Float32;
use gpubench::program::{Command, PushData, Step, Task};
use gpubench::session::{Event, Outcome, Session};

#[derive(Default)]
struct Device {
    buffers: HashMap<usize, Vec<u32>>,
    sets: HashMap<usize, (Kernel, HashMap<u32, usize>)>,
    pool: Option<(u32, u32)>,
    inputs: Vec<Vec<u32>>,
    downloads: Vec<Vec<u32>>,
    products: usize,
    clock: Vec<usize>,
    performed: usize,
    /// The step at which the device fails.
    fails_at: Option<usize>,
    /// A buffer element whose lowest bit is stuck.
    stuck: Option<(usize, usize)>,
    /// How many elements stand for a chunk of memory.
    small_chunks: Option<usize>,
}

fn buffers_of(kernel: Kernel) -> u32 {
    kernel.source().num_storage_buffers
}

impl Device {
    fn bare(&self) -> bool {
        self.buffers.is_empty() && self.sets.is_empty() && self.pool.is_none()
    }

    fn perform(&mut self, step: &Step) -> Event {
        let number = self.performed;
        self.performed += 1;
        if self.fails_at == Some(number) {
            return Event::Failed;
        }
        match step {
            Step::AllocBuffer { buffer, bytes } => {
                let words = match self.small_chunks {
                    Some(words) if *bytes == CHUNK_BYTES => words,
                    _ => (*bytes / 4) as usize,
                };
                assert!(self.buffers.insert(*buffer, vec![0xDEAD_BEEF; words]).is_none());
            }
            Step::Upload { buffer, input, count } => {
                assert_eq!(self.inputs[*input].len(), *count);
                let data = self.inputs[*input].clone();
                self.buffers.get_mut(buffer).unwrap()[..*count].copy_from_slice(&data);
            }
            Step::CreatePool { max_sets, max_storage_buffers } => {
                assert!(self.pool.is_none());
                let sizes = create_descriptor_pool(*max_sets, *max_storage_buffers);
                self.pool = Some((sizes.max_sets, sizes.storage_buffers));
            }
            Step::AllocSet { set, kernel } => {
                let (sets, buffers) = self.pool.unwrap();
                self.pool = Some((sets - 1, buffers - buffers_of(*kernel)));
                assert!(self.sets.insert(*set, (*kernel, HashMap::new())).is_none());
            }
            Step::Bind { set, bindings } => {
                for write in bind_storage_buffers(bindings) {
                    assert_eq!(write.offset, 0);
                    if self.small_chunks.is_none() {
                        assert_eq!(write.range, 4 * self.buffers[&write.buffer].len() as u64);
                    }
                    self.sets.get_mut(set).unwrap().1.insert(write.binding, write.buffer);
                }
            }
            Step::Execute { commands } => self.execute(commands),
            Step::Download { buffer, count } => {
                let data = self.buffers[buffer][..*count].to_vec();
                self.downloads.push(data);
            }
            Step::ReadFloat { buffer, offset } => {
                let bits = self.buffers[buffer][(*offset / 4) as usize];
                return Event::Float(Float32 { bits });
            }
            Step::ReadWord { buffer, offset } => {
                return Event::Word(self.buffers[buffer][(*offset / 4) as usize]);
            }
            Step::StartClock => self.clock.push(self.products),
            Step::StopClock => self.clock.push(self.products),
            Step::DestroyPool => {
                assert!(self.pool.take().is_some());
                self.sets.clear();
            }
            Step::DestroyBuffer { buffer } => {
                assert!(self.buffers.remove(buffer).is_some());
            }
        }
        Event::Done
    }

    fn execute(&mut self, commands: &[Command]) {
        let mut bound: Option<Kernel> = None;
        let mut set: Option<usize> = None;
        let mut push = PushData::Empty;
        for command in commands {
            match *command {
                Command::BindPipeline { kernel, .. } => bound = Some(kernel),
                Command::BindDescriptorSet { kernel, set: place, .. } => {
                    assert_eq!(self.sets[&place].0, kernel);
                    set = Some(place);
                }
                Command::PushConstants { kernel, data, .. } => {
                    assert_eq!(data.bytes().len() as u32, kernel.source().push_constant_size);
                    push = data;
                }
                Command::Dispatch { x, y, z } => {
                    assert_eq!(z, 1);
                    self.dispatch(bound.unwrap(), set.unwrap(), push, x, y);
                }
                Command::FillBuffer { buffer, offset, size, word } => {
                    let from = (offset / 4) as usize;
                    let to = from + (size / 4) as usize;
                    self.buffers.get_mut(&buffer).unwrap()[from..to].fill(word);
                }
                Command::MemoryBarrier { .. } => {}
            }
        }
    }

    fn dispatch(&mut self, kernel: Kernel, set: usize, push: PushData, x: u32, y: u32) {
        let (made_for, bindings) = self.sets[&set].clone();
        assert_eq!(made_for, kernel);
        let value = |bits: u32| f32::from_bits(bits);
        match push {
            PushData::Count1f(push) => {
                let mut count = push.count as usize;
                if let Some(words) = self.small_chunks {
                    count = count.min(words);
                }
                assert!(x as usize * 256 >= count && y == 1);
                let factor = value(push.value.bits);
                match kernel {
                    Kernel::Fill => {
                        let target = self.buffers.get_mut(&bindings[&0]).unwrap();
                        target[..count].fill(push.value.bits);
                    }
                    Kernel::Verify => {
                        let wrong = self.buffers[&bindings[&0]][..count]
                            .iter()
                            .filter(|v| value(**v) != factor)
                            .count();
                        self.buffers.get_mut(&bindings[&1]).unwrap()[0] += wrong as u32;
                    }
                    Kernel::VectorAdd => {
                        let sums: Vec<u32> = (0..count)
                            .map(|i| {
                                let a = value(self.buffers[&bindings[&0]][i]);
                                let b = value(self.buffers[&bindings[&1]][i]);
                                (a + b * factor).to_bits()
                            })
                            .collect();
                        let target = self.buffers.get_mut(&bindings[&2]).unwrap();
                        target[..count].copy_from_slice(&sums);
                    }
                    Kernel::Scale => {
                        let products: Vec<u32> = (0..count)
                            .map(|i| (value(self.buffers[&bindings[&0]][i]) * factor).to_bits())
                            .collect();
                        let target = self.buffers.get_mut(&bindings[&1]).unwrap();
                        target[..count].copy_from_slice(&products);
                    }
                    Kernel::Matmul => unreachable!(),
                }
            }
            PushData::Matmul(push) => {
                assert_eq!(kernel, Kernel::Matmul);
                let n = push.n as usize;
                assert!(x as usize * 16 >= n && y as usize * 16 >= n);
                self.products += 1;
                let a: Vec<f32> = self.buffers[&bindings[&0]].iter().map(|v| value(*v)).collect();
                let b: Vec<f32> = self.buffers[&bindings[&1]].iter().map(|v| value(*v)).collect();
                let mut c = vec![0f32; n * n];
                for i in 0..n {
                    for k in 0..n {
                        let factor = a[i * n + k];
                        for j in 0..n {
                            c[i * n + j] += factor * b[k * n + j];
                        }
                    }
                }
                let c: Vec<u32> = c.iter().map(|v| v.to_bits()).collect();
                self.buffers.get_mut(&bindings[&2]).unwrap()[..n * n].copy_from_slice(&c);
            }
            PushData::Empty => unreachable!(),
        }
        if let Some((buffer, element)) = self.stuck {
            if let Some(data) = self.buffers.get_mut(&buffer) {
                data[element] |= 1;
            }
        }
    }

    /// Performs a program to its end. Gives the session and the event that it
    /// stopped at, or the last one.
    fn run(&mut self, tasks: Vec<Task>) -> (Session, Event) {
        let mut session = Session::new(tasks);
        let mut last = Event::Done;
        loop {
            let event = match session.current() {
                Some(step) => self.perform(step),
                None => return (session, last),
            };
            if session.outcome() == Outcome::Accepted {
                last = event;
            }
            session.advance(event);
        }
    }
}

fn bits(values: &[Float32]) -> Vec<u32> {
    values.iter().map(|v| v.bits).collect()
}

fn floats(values: &[u32]) -> Vec<f32> {
    values.iter().map(|v| f32::from_bits(*v)).collect()
}

#[test]
fn a_product_of_small_matrices_comes_back() {
    let mut device = Device::default();
    device.inputs = vec![
        [1.0f32, 2.0, 3.0, 4.0].iter().map(|v| v.to_bits()).collect(),
        [5.0f32, 6.0, 7.0, 8.0].iter().map(|v| v.to_bits()).collect(),
    ];
    let (session, _) = device.run(single_product_tasks(2));
    assert_eq!(session.outcome(), Outcome::Accepted);
    assert_eq!(floats(&device.downloads[0]), vec![19.0, 22.0, 43.0, 50.0]);
    assert!(device.bare());
}

#[test]
fn the_correctness_program_multiplies_once() {
    let n = GATE_SIZE;
    let mut device = Device::default();
    device.inputs = vec![bits(&lcg_vec(n * n, GATE_SEED_A)), bits(&lcg_vec(n * n, GATE_SEED_B))];
    let (session, _) = device.run(run_correctness_gate());
    assert_eq!(session.outcome(), Outcome::Accepted);
    assert_eq!(device.products, 1);
    assert!(device.bare());
    let a = floats(&device.inputs[0]);
    let b = floats(&device.inputs[1]);
    let c = floats(&device.downloads[0]);
    let (i, j) = (17, 203);
    let exact: f64 = (0..n).map(|k| a[i * n + k] as f64 * b[k * n + j] as f64).sum();
    assert!((c[i * n + j] as f64 - exact).abs() < 1e-3);
}

#[test]
fn sizes_are_warmed_up_and_timed() {
    let n = 32;
    let (seed_a, seed_b) = size_seeds(n);
    assert_eq!((seed_a, seed_b), (0xCAFE_BABE ^ 32, 0xFEED_FACE ^ 32));
    let mut device = Device::default();
    device.inputs = vec![bits(&lcg_vec(n * n, seed_a)), bits(&lcg_vec(n * n, seed_b))];
    let (session, _) = device.run(run_single_size(n));
    assert_eq!(session.outcome(), Outcome::Accepted);
    assert_eq!(device.products, 1 + REPEATS * iterations(n) + 1);
    assert_eq!(device.clock, vec![1, 11, 11, 21, 21, 31]);
    assert_eq!(device.downloads.len(), 1);
    assert!(device.bare());
}

#[test]
fn a_failing_size_is_left_as_it_is() {
    let mut device = Device { fails_at: Some(7), ..Device::default() };
    device.inputs = vec![vec![0; 16], vec![0; 16]];
    let (session, event) = device.run(run_single_size(4));
    assert_eq!(session.outcome(), Outcome::Failed);
    assert_eq!(event, Event::Failed);
    assert_eq!(session.position(), 7);
    assert_eq!(device.performed, 8);
    assert_eq!(device.buffers.len(), 3);
}

#[test]
fn stability_programs_set_up_and_release() {
    let mut device = Device::default();
    let n = 1024 * 1024;
    device.inputs = vec![vec![0; n], vec![1.0f32.to_bits(); n]];
    let setup: Vec<Task> = reference_tasks().into_iter().take(8).collect();
    assert_eq!(device.run(setup).0.outcome(), Outcome::Accepted);
    assert_eq!(device.buffers.len(), 3);
    assert_eq!(reference_tasks().len(), 10);
    assert_eq!(iteration_tasks().len(), 2);
    assert_eq!(device.run(release_tasks()).0.outcome(), Outcome::Accepted);
    assert!(device.bare());
}

#[test]
fn sound_memory_measures_clean() {
    let mut device = Device::default();
    let (session, event) = device.run(bandwidth_tasks(20));
    assert_eq!(session.outcome(), Outcome::Accepted);
    assert_eq!(session.stopped_round(), None);
    assert_eq!(event, Event::Done);
    assert_eq!(device.clock.len(), 8);
    assert!(device.bare());
}

#[test]
fn a_wrong_sum_is_found_by_the_probe() {
    let mut device = Device { stuck: Some((0, 0)), ..Device::default() };
    let (session, event) = device.run(bandwidth_tasks(20));
    assert_eq!(session.outcome(), Outcome::Mismatch);
    assert_eq!(session.stopped_round(), Some(0));
    assert!(device.bare());
    match event {
        Event::Float(got) => {
            let text = format!("{}", f32::from_bits(got.bits));
            let error = stop_error(0, event, &text);
            match error {
                BandwidthError::Correctness(message) => assert_eq!(
                    message,
                    format!("Phép cộng cho kết quả sai: run 0, got {}, expected 3", text)
                ),
                BandwidthError::Vulkan(_) => panic!("a device error"),
            }
        }
        _ => panic!("no number was read"),
    }
}

#[test]
fn a_wrong_element_is_found_by_the_comparison() {
    let mut device = Device { stuck: Some((0, 399)), ..Device::default() };
    let (session, event) = device.run(bandwidth_tasks(20));
    assert_eq!(session.outcome(), Outcome::Mismatch);
    assert_eq!(event, Event::Word(1));
    assert!(device.bare());
}

#[test]
fn failures_during_the_measurement_release_everything() {
    let total = bandwidth_tasks(4).len();
    assert_eq!(total, 11 + 5 + 4 * 9 + 5);
    for step in 0..total {
        let mut device = Device { fails_at: Some(step), ..Device::default() };
        let (session, _) = device.run(bandwidth_tasks(4));
        assert_eq!(session.outcome(), Outcome::Failed);
        assert_eq!(session.position(), step);
        let reads_counter = step >= 16 && step < 52 && (step - 16) % 9 == 8;
        let released = (11..52).contains(&step) && !reads_counter;
        assert_eq!(device.bare(), released || step == 0);
        if (16..52).contains(&step) {
            assert_eq!(session.stopped_round(), Some((step - 16) / 9));
        }
    }
}

#[test]
fn identity_products_come_back_exactly() {
    let n = 256;
    let mut device = Device::default();
    let a = lcg_vec_scaled(n * n, 0x1234_5678, Float32 { bits: 10.0f32.to_bits() });
    device.inputs = vec![bits(&a), bits(&identity_matrix(n))];
    assert_eq!(device.run(check_identity_matmul()).0.outcome(), Outcome::Accepted);
    assert_eq!(floats(&device.downloads[0]), floats(&device.inputs[0]));
    assert!(device.bare());
}

#[test]
fn identity_matrices_have_ones_on_the_diagonal() {
    let values = floats(&bits(&identity_matrix(3)));
    assert_eq!(values, vec![1.0, 0.0, 0.0, 0.0, 1.0, 0.0, 0.0, 0.0, 1.0]);
    assert!(identity_matrix(0).is_empty());
}

#[test]
fn sums_minus_summands_come_back_nearly() {
    let mut device = Device::default();
    let a = lcg_vec_scaled(VECTOR_COUNT, 0xAAAA_BBBB, Float32 { bits: 100.0f32.to_bits() });
    let b = lcg_vec_scaled(VECTOR_COUNT, 0xBBBB_AAAA, Float32 { bits: 100.0f32.to_bits() });
    device.inputs = vec![bits(&a), bits(&b)];
    assert_eq!(device.run(check_add_sub()).0.outcome(), Outcome::Accepted);
    let got = floats(&device.downloads[0]);
    let bound = 2f64.powi(-17) + 2f64.powi(-18);
    let mut exact = true;
    for (got, want) in got.iter().zip(floats(&device.inputs[0])) {
        assert!((*got as f64 - want as f64).abs() <= bound);
        exact = exact && *got == want;
    }
    assert!(!exact);
    assert!(device.bare());
}

#[test]
fn doubled_halves_come_back_exactly() {
    let mut device = Device::default();
    let a = lcg_vec_scaled(VECTOR_COUNT, 0xCCCC_DDDD, Float32 { bits: 50.0f32.to_bits() });
    device.inputs = vec![bits(&a)];
    assert_eq!(device.run(check_scale_mul_div()).0.outcome(), Outcome::Accepted);
    assert_eq!(device.downloads[0], device.inputs[0]);
    assert!(device.bare());
}

/// Runs the VRAM test on a device with room for so many chunks.
fn fill_memory(device: &mut Device, test: &mut VramTest, room: u64) -> Vec<String> {
    let mut warnings = Vec::new();
    assert_eq!(device.run(setup_tasks()).0.outcome(), Outcome::Accepted);
    while let Some(plan) = test.next_chunk() {
        if plan.index == room {
            device.fails_at = Some(device.performed);
        }
        let mut reading = ChunkReading::new();
        let mut session = Session::new(plan.tasks);
        while let Some(step) = session.current() {
            let event = device.perform(step);
            reading.note(event);
            session.advance(event);
        }
        warnings.extend(test.record_chunk(reading.report));
    }
    for step in test.cleanup() {
        device.perform(&step);
    }
    warnings
}

#[test]
fn all_chunks_are_checked_and_released() {
    let mut device = Device { small_chunks: Some(8), ..Device::default() };
    let mut test = VramTest::new(Some(1024));
    let warnings = fill_memory(&mut device, &mut test, 9);
    assert!(warnings.is_empty());
    assert_eq!(test.chunks, 9);
    assert_eq!(test.integrity_errors, 0);
    assert!(test.stopped);
    assert!(device.bare());
}

#[test]
fn the_test_ends_at_its_limit() {
    let mut device = Device { small_chunks: Some(8), ..Device::default() };
    let mut test = VramTest::new(Some(256));
    fill_memory(&mut device, &mut test, 1000);
    assert_eq!(test.chunks, 10);
    assert!(!test.stopped);
    assert!(device.bare());
}

#[test]
fn wrong_chunks_are_reported() {
    let mut device =
        Device { small_chunks: Some(8), stuck: Some((3, 5)), ..Device::default() };
    let mut test = VramTest::new(Some(256));
    let warnings = fill_memory(&mut device, &mut test, 4);
    assert_eq!(
        warnings,
        vec![
            "Chunk #2 (~256 MB): DỮ LIỆU SAI (mismatches=1) — nghi ngờ VRAM hỏng vùng này!"
                .to_string()
        ]
    );
    assert_eq!(test.chunks, 4);
    assert_eq!(test.integrity_errors, 1);
    assert!(device.bare());
}

#[test]
fn a_failed_setup_releases_what_it_made() {
    for step in 0..4 {
        let mut device = Device { fails_at: Some(step), ..Device::default() };
        let (session, _) = device.run(setup_tasks());
        assert_eq!(session.outcome(), Outcome::Failed);
        assert_eq!(session.position(), step);
        assert!(device.bare());
    }
}
