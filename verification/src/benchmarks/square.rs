//! Programs that multiply square matrices on the device.
use vstd::prelude::*;

use super::{f32_bytes, PushMatmul};
use crate::compute::{Binding, Kernel};
use crate::program::{push_plain, record_dispatch_2d, Command, PushData, Step, Task};
#[allow(unused_imports)]
use crate::program::{dispatch_2d, plain, plain_tasks, tasks_view, StepView};

verus! {

/// The places of the two factors and the product.
pub const A_BUFFER: usize = 0;

pub const B_BUFFER: usize = 1;

pub const C_BUFFER: usize = 2;

/// The place of the descriptor set of the product.
pub const PRODUCT_SET: usize = 0;

/// The width of a group of threads of the matrix product.
pub const TILE: u32 = 16;

/// Whether matrices of `n` rows can be handled: their bytes can be counted,
/// and their rows divided into groups.
pub open spec fn fits(n: usize) -> bool {
    n * n * 4 <= usize::MAX && n + 15 <= u32::MAX
}

/// How many bytes a matrix of `n` rows takes.
pub open spec fn matrix_bytes(n: usize) -> u64 {
    (n * n * 4) as u64
}

/// The three matrices, bound to the product's descriptor set.
pub open spec fn square_bindings(n: usize) -> Seq<Binding> {
    seq![
        Binding { binding: 0, buffer: A_BUFFER, bytes: matrix_bytes(n) },
        Binding { binding: 1, buffer: B_BUFFER, bytes: matrix_bytes(n) },
        Binding { binding: 2, buffer: C_BUFFER, bytes: matrix_bytes(n) },
    ]
}

/// Allocates the matrices, uploads the factors and binds all three.
pub open spec fn square_setup(n: usize) -> Seq<StepView> {
    seq![
        StepView::AllocBuffer { buffer: A_BUFFER, bytes: matrix_bytes(n) },
        StepView::AllocBuffer { buffer: B_BUFFER, bytes: matrix_bytes(n) },
        StepView::AllocBuffer { buffer: C_BUFFER, bytes: matrix_bytes(n) },
        StepView::Upload { buffer: A_BUFFER, input: 0, count: (n * n) as usize },
        StepView::Upload { buffer: B_BUFFER, input: 1, count: (n * n) as usize },
        StepView::CreatePool { max_sets: 1, max_storage_buffers: 3 },
        StepView::AllocSet { set: PRODUCT_SET, kernel: Kernel::Matmul },
        StepView::Bind { set: PRODUCT_SET, bindings: square_bindings(n) },
    ]
}

/// Multiplies the matrices once.
pub open spec fn square_product(n: usize) -> StepView {
    StepView::Execute {
        commands: dispatch_2d(
            Kernel::Matmul,
            PRODUCT_SET,
            PushData::Matmul(PushMatmul { n: n as u32 }),
            n as u32,
            TILE,
        ),
    }
}

/// Downloads the product.
pub open spec fn square_download(n: usize) -> StepView {
    StepView::Download { buffer: C_BUFFER, count: (n * n) as usize }
}

/// Releases the descriptor pool and the matrices.
pub open spec fn square_release() -> Seq<StepView> {
    seq![
        StepView::DestroyPool,
        StepView::DestroyBuffer { buffer: A_BUFFER },
        StepView::DestroyBuffer { buffer: B_BUFFER },
        StepView::DestroyBuffer { buffer: C_BUFFER },
    ]
}

/// Multiplies two matrices and brings back the product.
pub open spec fn single_product(n: usize) -> Seq<StepView> {
    square_setup(n) + seq![square_product(n), square_download(n)] + square_release()
}

/// Adds the tasks that allocate, upload and bind the matrices.
pub fn push_square_setup(tasks: &mut Vec<Task>, n: usize)
    requires
        fits(n),
    ensures
        tasks_view(final(tasks)@) == tasks_view(old(tasks)@) + plain_tasks(square_setup(n)),
{
    let count: usize = square_count(n);
    let bytes: u64 = f32_bytes(count);
    let ghost before = tasks_view(tasks@);
    push_plain(tasks, Step::AllocBuffer { buffer: A_BUFFER, bytes });
    push_plain(tasks, Step::AllocBuffer { buffer: B_BUFFER, bytes });
    push_plain(tasks, Step::AllocBuffer { buffer: C_BUFFER, bytes });
    push_plain(tasks, Step::Upload { buffer: A_BUFFER, input: 0, count });
    push_plain(tasks, Step::Upload { buffer: B_BUFFER, input: 1, count });
    push_plain(tasks, Step::CreatePool { max_sets: 1, max_storage_buffers: 3 });
    push_plain(tasks, Step::AllocSet { set: PRODUCT_SET, kernel: Kernel::Matmul });
    let bindings: Vec<Binding> = vec![
        Binding { binding: 0, buffer: A_BUFFER, bytes },
        Binding { binding: 1, buffer: B_BUFFER, bytes },
        Binding { binding: 2, buffer: C_BUFFER, bytes },
    ];
    assert(bindings@ =~= square_bindings(n));
    push_plain(tasks, Step::Bind { set: PRODUCT_SET, bindings });
    assert(tasks_view(tasks@) =~= before + plain_tasks(square_setup(n)));
}

/// How many elements a square matrix has.
pub fn square_count(n: usize) -> (count: usize)
    requires
        n * n * 4 <= usize::MAX,
    ensures
        count == n * n,
        count * 4 <= usize::MAX,
{
    assert(n * n <= n * n * 4) by (nonlinear_arith)
        requires
            n >= 0,
    ;
    n * n
}

/// Adds the task that multiplies the matrices once.
pub fn push_square_product(tasks: &mut Vec<Task>, n: usize)
    requires
        fits(n),
    ensures
        tasks_view(final(tasks)@) == tasks_view(old(tasks)@).push(plain(square_product(n))),
{
    let mut commands: Vec<Command> = Vec::new();
    record_dispatch_2d(
        &mut commands,
        Kernel::Matmul,
        PRODUCT_SET,
        PushData::Matmul(PushMatmul { n: n as u32 }),
        n as u32,
        TILE,
    );
    let step = Step::Execute { commands };
    assert(step@->commands =~= square_product(n)->commands);
    push_plain(tasks, step);
}

/// Adds the task that downloads the product.
pub fn push_square_download(tasks: &mut Vec<Task>, n: usize)
    requires
        fits(n),
    ensures
        tasks_view(final(tasks)@) == tasks_view(old(tasks)@).push(plain(square_download(n))),
{
    push_plain(tasks, Step::Download { buffer: C_BUFFER, count: square_count(n) });
}

/// Adds the tasks that release the descriptor pool and the matrices.
pub fn push_square_release(tasks: &mut Vec<Task>)
    ensures
        tasks_view(final(tasks)@) == tasks_view(old(tasks)@) + plain_tasks(square_release()),
{
    let ghost before = tasks_view(tasks@);
    push_plain(tasks, Step::DestroyPool);
    push_plain(tasks, Step::DestroyBuffer { buffer: A_BUFFER });
    push_plain(tasks, Step::DestroyBuffer { buffer: B_BUFFER });
    push_plain(tasks, Step::DestroyBuffer { buffer: C_BUFFER });
    assert(tasks_view(tasks@) =~= before + plain_tasks(square_release()));
}

/// The tasks that multiply two matrices and bring back the product.
pub fn single_product_tasks(n: usize) -> (tasks: Vec<Task>)
    requires
        fits(n),
    ensures
        tasks_view(tasks@) == plain_tasks(single_product(n)),
{
    let mut tasks: Vec<Task> = Vec::new();
    push_square_setup(&mut tasks, n);
    push_square_product(&mut tasks, n);
    push_square_download(&mut tasks, n);
    push_square_release(&mut tasks);
    assert(tasks_view(tasks@) =~= plain_tasks(single_product(n)));
    tasks
}

} // verus!
