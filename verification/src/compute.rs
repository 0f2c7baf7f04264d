//! Compute kernels: their shader sources, pipeline layouts and descriptor
//! bindings.
use vstd::prelude::*;

verus! {

/// Fills a buffer with a constant value.
/// Bindings: 0 = data (storage buffer, write).
/// Push constants: { uint count; float value; }.
pub const FILL_GLSL: &'static str = r#"
#version 450
layout(local_size_x = 256) in;

layout(set = 0, binding = 0) buffer Data { float data[]; };

layout(push_constant) uniform PC {
    uint count;
    float value;
};

void main() {
    uint idx = gl_GlobalInvocationID.x;
    if (idx < count) {
        data[idx] = value;
    }
}
"#;

/// Compares a buffer with an expected value and counts the elements that
/// differ, by an atomic addition.
/// Bindings: 0 = data (read), 1 = result (one uint counter).
/// Push constants: { uint count; float expected; }.
pub const VERIFY_GLSL: &'static str = r#"
#version 450
layout(local_size_x = 256) in;

layout(set = 0, binding = 0) readonly buffer Data { float data[]; };
layout(set = 0, binding = 1) buffer Result { uint error_count; };

layout(push_constant) uniform PC {
    uint count;
    float expected;
};

void main() {
    uint idx = gl_GlobalInvocationID.x;
    if (idx < count && data[idx] != expected) {
        atomicAdd(error_count, 1u);
    }
}
"#;

/// Tiled matrix product C = A x B of square, row-major matrices, with 16 x 16
/// tiles in shared memory.
/// Bindings: 0 = A (read), 1 = B (read), 2 = C (write).
/// Push constants: { uint N; }.
pub const MATMUL_GLSL: &'static str = r#"
#version 450
layout(local_size_x = 16, local_size_y = 16) in;

layout(set = 0, binding = 0) readonly buffer MatA { float a[]; };
layout(set = 0, binding = 1) readonly buffer MatB { float b[]; };
layout(set = 0, binding = 2) writeonly buffer MatC { float c[]; };

layout(push_constant) uniform PC {
    uint N;
};

shared float tileA[16][16];
shared float tileB[16][16];

void main() {
    uint row = gl_GlobalInvocationID.y;
    uint col = gl_GlobalInvocationID.x;
    uint lr  = gl_LocalInvocationID.y;
    uint lc  = gl_LocalInvocationID.x;

    float sum = 0.0;
    uint tiles = (N + 15u) / 16u;

    for (uint t = 0u; t < tiles; t++) {
        uint aCol = t * 16u + lc;
        uint bRow = t * 16u + lr;

        tileA[lr][lc] = (row < N && aCol < N) ? a[row * N + aCol] : 0.0;
        tileB[lr][lc] = (bRow < N && col  < N) ? b[bRow * N + col] : 0.0;

        barrier();

        for (uint k = 0u; k < 16u; k++) {
            sum += tileA[lr][k] * tileB[k][lc];
        }

        barrier();
    }

    if (row < N && col < N) {
        c[row * N + col] = sum;
    }
}
"#;

/// Element-wise C[i] = A[i] + B[i] * b_scale: a scale of one adds, a scale of
/// minus one subtracts.
/// Bindings: 0 = A (read), 1 = B (read), 2 = C (write).
/// Push constants: { uint count; float b_scale; }.
pub const VECTOR_ADD_GLSL: &'static str = r#"
#version 450
layout(local_size_x = 256) in;

layout(set = 0, binding = 0) readonly buffer BufA { float a[]; };
layout(set = 0, binding = 1) readonly buffer BufB { float b[]; };
layout(set = 0, binding = 2) writeonly buffer BufC { float c[]; };

layout(push_constant) uniform PC {
    uint count;
    float b_scale;
};

void main() {
    uint idx = gl_GlobalInvocationID.x;
    if (idx < count) {
        c[idx] = a[idx] + b[idx] * b_scale;
    }
}
"#;

/// Element-wise C[i] = A[i] * scalar.
/// Bindings: 0 = A (read), 1 = C (write).
/// Push constants: { uint count; float scalar; }.
pub const SCALE_GLSL: &'static str = r#"
#version 450
layout(local_size_x = 256) in;

layout(set = 0, binding = 0) readonly buffer BufA { float a[]; };
layout(set = 0, binding = 1) writeonly buffer BufC { float c[]; };

layout(push_constant) uniform PC {
    uint count;
    float scalar;
};

void main() {
    uint idx = gl_GlobalInvocationID.x;
    if (idx < count) {
        c[idx] = a[idx] * scalar;
    }
}
"#;

/// The compute kernels of the benchmark suite.
#[derive(Debug, Clone, Copy, PartialEq, Eq, Structural)]
pub enum Kernel {
    Fill,
    Verify,
    Matmul,
    VectorAdd,
    Scale,
}

/// What a kernel is built from: its shader and the shape of its arguments.
#[derive(Debug, Clone, Copy)]
pub struct KernelSource {
    pub source: &'static str,
    pub name: &'static str,
    pub num_storage_buffers: u32,
    pub push_constant_size: u32,
}

impl Kernel {
    /// How many storage buffers the kernel takes.
    pub open spec fn buffers(self) -> u32 {
        match self {
            Kernel::Fill => 1,
            Kernel::Verify => 2,
            Kernel::Matmul => 3,
            Kernel::VectorAdd => 3,
            Kernel::Scale => 2,
        }
    }

    /// How many bytes of push constants the kernel takes.
    pub open spec fn push_size(self) -> u32 {
        match self {
            Kernel::Matmul => 4,
            _ => 8,
        }
    }

    /// The kernel's shader source.
    pub open spec fn glsl(self) -> Seq<char> {
        match self {
            Kernel::Fill => FILL_GLSL@,
            Kernel::Verify => VERIFY_GLSL@,
            Kernel::Matmul => MATMUL_GLSL@,
            Kernel::VectorAdd => VECTOR_ADD_GLSL@,
            Kernel::Scale => SCALE_GLSL@,
        }
    }

    /// The name of the kernel's shader file.
    pub open spec fn file_name(self) -> Seq<char> {
        match self {
            Kernel::Fill => "fill.comp"@,
            Kernel::Verify => "verify.comp"@,
            Kernel::Matmul => "matmul.comp"@,
            Kernel::VectorAdd => "vector_add.comp"@,
            Kernel::Scale => "scale.comp"@,
        }
    }

    /// What the kernel is built from.
    pub fn source(&self) -> (source: KernelSource)
        ensures
            source.source@ == self.glsl(),
            source.name@ == self.file_name(),
            source.num_storage_buffers == self.buffers(),
            source.push_constant_size == self.push_size(),
    {
        match self {
            Kernel::Fill => KernelSource {
                source: FILL_GLSL,
                name: "fill.comp",
                num_storage_buffers: 1,
                push_constant_size: 8,
            },
            Kernel::Verify => KernelSource {
                source: VERIFY_GLSL,
                name: "verify.comp",
                num_storage_buffers: 2,
                push_constant_size: 8,
            },
            Kernel::Matmul => KernelSource {
                source: MATMUL_GLSL,
                name: "matmul.comp",
                num_storage_buffers: 3,
                push_constant_size: 4,
            },
            Kernel::VectorAdd => KernelSource {
                source: VECTOR_ADD_GLSL,
                name: "vector_add.comp",
                num_storage_buffers: 3,
                push_constant_size: 8,
            },
            Kernel::Scale => KernelSource {
                source: SCALE_GLSL,
                name: "scale.comp",
                num_storage_buffers: 2,
                push_constant_size: 8,
            },
        }
    }
}

/// The kernels in the order in which they are compiled, built and released.
pub struct Shaders {
    pub kernels: Vec<Kernel>,
}

impl Shaders {
    /// All kernels of the benchmark suite.
    pub fn new() -> (shaders: Shaders)
        ensures
            shaders.kernels@ == seq![
                Kernel::Fill,
                Kernel::Verify,
                Kernel::Matmul,
                Kernel::VectorAdd,
                Kernel::Scale,
            ],
    {
        Shaders {
            kernels: vec![
                Kernel::Fill,
                Kernel::Verify,
                Kernel::Matmul,
                Kernel::VectorAdd,
                Kernel::Scale,
            ],
        }
    }
}

/// Vulkan's number for storage buffers among the descriptor types.
pub const DESCRIPTOR_STORAGE_BUFFER: i32 = 7;

/// Vulkan's flag for compute shaders among the shader stages.
pub const SHADER_STAGE_COMPUTE: u32 = 0x20;

/// A binding of a descriptor set: its number, what is bound, how many of it,
/// and the shader stages that see it.
#[derive(Debug, Clone, Copy, PartialEq, Eq, Structural)]
pub struct LayoutBinding {
    pub binding: u32,
    pub descriptor_type: i32,
    pub descriptor_count: u32,
    pub stage_flags: u32,
}

/// A range of push constants, in bytes, and the shader stages that see it.
#[derive(Debug, Clone, Copy, PartialEq, Eq, Structural)]
pub struct PushConstantRange {
    pub stage_flags: u32,
    pub offset: u32,
    pub size: u32,
}

/// What a compute pipeline is made of: the bindings of its descriptor set, its
/// push constants, and the stage and the entry point of its shader.
pub struct ComputePipeline {
    pub bindings: Vec<LayoutBinding>,
    pub push_constants: Option<PushConstantRange>,
    pub stage: u32,
    pub entry_point: &'static str,
}

/// The binding of one storage buffer, seen by compute shaders.
pub open spec fn storage_binding(binding: u32) -> LayoutBinding {
    LayoutBinding {
        binding,
        descriptor_type: DESCRIPTOR_STORAGE_BUFFER,
        descriptor_count: 1,
        stage_flags: SHADER_STAGE_COMPUTE,
    }
}

/// The bindings of so many storage buffers.
pub open spec fn layout_bindings(num_storage_buffers: u32) -> Seq<LayoutBinding> {
    Seq::new(num_storage_buffers as nat, |i: int| storage_binding(i as u32))
}

/// The range of so many bytes of push constants.
pub open spec fn push_range(push_constant_size: u32) -> Option<PushConstantRange> {
    if push_constant_size == 0 {
        None
    } else {
        Some(
            PushConstantRange {
                stage_flags: SHADER_STAGE_COMPUTE,
                offset: 0,
                size: push_constant_size,
            },
        )
    }
}

impl ComputePipeline {
    /// The pipeline of a compute shader with `num_storage_buffers` storage
    /// buffers and `push_constant_size` bytes of push constants.
    pub fn new(num_storage_buffers: u32, push_constant_size: u32) -> (pipeline: ComputePipeline)
        ensures
            pipeline.bindings@ == layout_bindings(num_storage_buffers),
            pipeline.push_constants == push_range(push_constant_size),
            pipeline.bindings@ == Seq::new(
                num_storage_buffers as nat,
                |i: int| storage_binding(i as u32),
            ),
            push_constant_size == 0 ==> pipeline.push_constants is None,
            push_constant_size > 0 ==> pipeline.push_constants == Some(
                (PushConstantRange {
                    stage_flags: SHADER_STAGE_COMPUTE,
                    offset: 0,
                    size: push_constant_size,
                }),
            ),
            pipeline.stage == SHADER_STAGE_COMPUTE,
            pipeline.entry_point@ == "main"@,
    {
        let mut bindings: Vec<LayoutBinding> = Vec::new();
        let mut i: u32 = 0;
        while i < num_storage_buffers
            invariant
                i <= num_storage_buffers,
                bindings@ == Seq::new(i as nat, |j: int| storage_binding(j as u32)),
            decreases num_storage_buffers - i,
        {
            bindings.push(
                LayoutBinding {
                    binding: i,
                    descriptor_type: DESCRIPTOR_STORAGE_BUFFER,
                    descriptor_count: 1,
                    stage_flags: SHADER_STAGE_COMPUTE,
                },
            );
            i = i + 1;
            assert(bindings@ =~= Seq::new(i as nat, |j: int| storage_binding(j as u32)));
        }
        let push_constants: Option<PushConstantRange> = if push_constant_size > 0 {
            Some(
                PushConstantRange {
                    stage_flags: SHADER_STAGE_COMPUTE,
                    offset: 0,
                    size: push_constant_size,
                },
            )
        } else {
            None
        };
        ComputePipeline {
            bindings,
            push_constants,
            stage: SHADER_STAGE_COMPUTE,
            entry_point: "main",
        }
    }
}

/// A storage buffer bound to a descriptor set: the binding's number, the
/// buffer's place in the program, and how many of its bytes are bound.
#[derive(Debug, Clone, Copy, PartialEq, Eq, Structural)]
pub struct Binding {
    pub binding: u32,
    pub buffer: usize,
    pub bytes: u64,
}

/// What a descriptor pool has room for.
#[derive(Debug, Clone, Copy, PartialEq, Eq, Structural)]
pub struct PoolSizes {
    pub max_sets: u32,
    pub descriptor_type: i32,
    pub storage_buffers: u32,
}

/// How many storage buffers a pool needs for `max_sets` sets, each with up to
/// `max_storage_buffers`.
#[verifier::opaque]
pub open spec fn pool_storage_buffers(max_sets: u32, max_storage_buffers: u32) -> int {
    max_sets * max_storage_buffers
}

/// A descriptor pool large enough for `max_sets` sets, each with up to
/// `max_storage_buffers` storage buffers.
pub fn create_descriptor_pool(max_sets: u32, max_storage_buffers: u32) -> (sizes: PoolSizes)
    requires
        max_sets * max_storage_buffers <= u32::MAX,
    ensures
        sizes.max_sets == max_sets,
        sizes.descriptor_type == DESCRIPTOR_STORAGE_BUFFER,
        sizes.storage_buffers == max_sets * max_storage_buffers,
        sizes.storage_buffers == pool_storage_buffers(max_sets, max_storage_buffers),
{
    proof {
        reveal(pool_storage_buffers);
    }
    PoolSizes {
        max_sets,
        descriptor_type: DESCRIPTOR_STORAGE_BUFFER,
        storage_buffers: max_sets * max_storage_buffers,
    }
}

/// A pool has room for every set that it was made for.
pub proof fn law_pool_has_room_for_its_sets(
    max_sets: u32,
    max_storage_buffers: u32,
    counts: Seq<u32>,
)
    requires
        counts.len() <= max_sets,
        forall|i: int| 0 <= i < counts.len() ==> #[trigger] counts[i] <= max_storage_buffers,
    ensures
        total_buffers(counts) <= counts.len() * max_storage_buffers,
        total_buffers(counts) <= pool_storage_buffers(max_sets, max_storage_buffers),
    decreases counts.len(),
{
    reveal(pool_storage_buffers);
    if counts.len() > 0 {
        let fewer = counts.drop_last();
        assert forall|i: int| 0 <= i < fewer.len() implies #[trigger] fewer[i]
            <= max_storage_buffers by {
            assert(counts[i] <= max_storage_buffers);
        }
        law_pool_has_room_for_its_sets(max_sets, max_storage_buffers, fewer);
        assert(counts[counts.len() - 1] <= max_storage_buffers);
    }
    let len = counts.len() as int;
    assert((len - 1) * max_storage_buffers + max_storage_buffers == len * max_storage_buffers)
        by (nonlinear_arith);
    assert(0 <= len * max_storage_buffers <= max_sets * max_storage_buffers) by (nonlinear_arith)
        requires
            0 <= len <= max_sets,
            0 <= max_storage_buffers,
    ;
}

/// The pools of the benchmarks.
pub proof fn lemma_pool_sizes()
    ensures
        pool_storage_buffers(1, 3) == 3,
        pool_storage_buffers(2, 3) == 6,
        pool_storage_buffers(2, 4) == 8,
        pool_storage_buffers(2, 6) == 12,
        pool_storage_buffers(4, 9) == 36,
{
    reveal(pool_storage_buffers);
}

/// How many storage buffers some sets hold together.
pub open spec fn total_buffers(counts: Seq<u32>) -> int
    decreases counts.len(),
{
    if counts.len() == 0 {
        0
    } else {
        total_buffers(counts.drop_last()) + counts.last()
    }
}

/// One update of a descriptor set.
#[derive(Debug, Clone, Copy, PartialEq, Eq, Structural)]
pub struct DescriptorWrite {
    pub binding: u32,
    pub descriptor_type: i32,
    pub buffer: usize,
    pub offset: u64,
    pub range: u64,
}

/// The update that binds a storage buffer from its start.
pub open spec fn descriptor_write(binding: Binding) -> DescriptorWrite {
    DescriptorWrite {
        binding: binding.binding,
        descriptor_type: DESCRIPTOR_STORAGE_BUFFER,
        buffer: binding.buffer,
        offset: 0,
        range: binding.bytes,
    }
}

/// The updates that bind storage buffers to a descriptor set.
pub open spec fn descriptor_writes(bindings: Seq<Binding>) -> Seq<DescriptorWrite> {
    bindings.map_values(|binding: Binding| descriptor_write(binding))
}

/// The updates that bind storage buffers to a descriptor set, one for each,
/// in their order.
pub fn bind_storage_buffers(bindings: &Vec<Binding>) -> (writes: Vec<DescriptorWrite>)
    ensures
        writes@ == descriptor_writes(bindings@),
        writes@ == bindings@.map_values(|binding: Binding| descriptor_write(binding)),
{
    let mut writes: Vec<DescriptorWrite> = Vec::new();
    let mut i: usize = 0;
    while i < bindings.len()
        invariant
            i <= bindings.len(),
            writes@ == bindings@.take(i as int).map_values(
                |binding: Binding| descriptor_write(binding),
            ),
        decreases bindings.len() - i,
    {
        let binding: Binding = bindings[i];
        writes.push(
            DescriptorWrite {
                binding: binding.binding,
                descriptor_type: DESCRIPTOR_STORAGE_BUFFER,
                buffer: binding.buffer,
                offset: 0,
                range: binding.bytes,
            },
        );
        i = i + 1;
        assert(writes@ =~= bindings@.take(i as int).map_values(
            |binding: Binding| descriptor_write(binding),
        ));
    }
    assert(bindings@.take(i as int) =~= bindings@);
    writes
}

} // verus!
