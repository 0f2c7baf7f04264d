//! What the matrix products do on a device without faults.
use vstd::prelude::*;

#[allow(unused_imports)]
use super::square::{
    fits, matrix_bytes, single_product, square_bindings, square_download, square_product,
    square_release, square_setup, A_BUFFER, B_BUFFER, C_BUFFER, PRODUCT_SET, TILE,
};
#[allow(unused_imports)]
use super::PushMatmul;
#[allow(unused_imports)]
use crate::compute::{lemma_pool_sizes, Binding, Kernel};
#[allow(unused_imports)]
use crate::ideal::{
    dot, lemma_dispatch, lemma_one_more_step, lemma_steps_in_parts, one, prepared, Device,
};
#[allow(unused_imports)]
use crate::program::{group_count, law_groups_cover_elements, PushData, StepView};

verus! {

/// The product of two square matrices of `n` rows.
pub open spec fn product_of(a: Seq<int>, b: Seq<int>, n: nat) -> Seq<int> {
    Seq::new(n * n, |i: int| dot(a, b, n, i / n as int, i % n as int, n) / one())
}

/// Whether the first two inputs of a device are matrices of `n` rows.
pub open spec fn has_square_inputs(device: Device, n: usize) -> bool {
    &&& device.inputs.len() >= 2
    &&& device.inputs[0].len() == n * n
    &&& device.inputs[1].len() == n * n
}

/// A device that holds both factors and room for the product, bound.
pub open spec fn holds_squares(device: Device, n: usize) -> bool {
    &&& device.sound
    &&& device.pool is Some
    &&& device.sets.dom() =~= set![PRODUCT_SET]
    &&& device.sets[PRODUCT_SET].kernel == Kernel::Matmul
    &&& device.sets[PRODUCT_SET].bindings =~= Map::<u32, usize>::empty().insert(
        0,
        A_BUFFER,
    ).insert(1, B_BUFFER).insert(2, C_BUFFER)
    &&& device.buffers.dom() =~= set![A_BUFFER, B_BUFFER, C_BUFFER]
    &&& has_square_inputs(device, n)
    &&& device.buffers[A_BUFFER] == device.inputs[0]
    &&& device.buffers[B_BUFFER] == device.inputs[1]
    &&& device.buffers[C_BUFFER].len() == n * n
}

/// The setup leads from a bare device to one that holds the matrices.
pub proof fn lemma_square_setup(device: Device, n: usize)
    requires
        device.sound,
        device.bare(),
        fits(n),
        n > 0,
        has_square_inputs(device, n),
    ensures
        holds_squares(device.after_steps(square_setup(n)), n),
        device.after_steps(square_setup(n)).inputs == device.inputs,
        device.after_steps(square_setup(n)).downloads == device.downloads,
{
    let steps = square_setup(n);
    let s0 = Seq::<StepView>::empty();
    let s1 = s0.push(steps[0]);
    let s2 = s1.push(steps[1]);
    let s3 = s2.push(steps[2]);
    let s4 = s3.push(steps[3]);
    let s5 = s4.push(steps[4]);
    let s6 = s5.push(steps[5]);
    let s7 = s6.push(steps[6]);
    let s8 = s7.push(steps[7]);
    lemma_one_more_step(device, s0, steps[0]);
    lemma_one_more_step(device, s1, steps[1]);
    lemma_one_more_step(device, s2, steps[2]);
    lemma_one_more_step(device, s3, steps[3]);
    lemma_one_more_step(device, s4, steps[4]);
    lemma_one_more_step(device, s5, steps[5]);
    lemma_one_more_step(device, s6, steps[6]);
    lemma_one_more_step(device, s7, steps[7]);
    assert(steps =~= s8);
    assert(n * n > 0 && n * n <= n * n * 4) by (nonlinear_arith)
        requires
            n > 0,
    ;
    let bytes = matrix_bytes(n);
    assert(bytes == n * n * 4 && bytes > 0);
    let d3 = device.after_steps(s3);
    assert(d3.sound);
    assert(d3.buffers.dom() =~= set![A_BUFFER, B_BUFFER, C_BUFFER]);
    let d5 = device.after_steps(s5);
    assert(d5.sound);
    assert(d5.buffers[A_BUFFER] =~= device.inputs[0]);
    assert(d5.buffers[B_BUFFER] =~= device.inputs[1]);
    lemma_pool_sizes();
    let d7 = device.after_steps(s7);
    assert(d7.sound);
    lemma_bound(d7.sets[PRODUCT_SET].bindings, n);
    let d8 = device.after_steps(s8);
    assert(d8.sound);
    assert(d8.sets[PRODUCT_SET].bindings =~= Map::<u32, usize>::empty().insert(
        0,
        A_BUFFER,
    ).insert(1, B_BUFFER).insert(2, C_BUFFER));
}

proof fn lemma_bound(old: Map<u32, usize>, n: usize)
    ensures
        Device::rebound(old, square_bindings(n)) == old.insert(0, A_BUFFER).insert(
            1,
            B_BUFFER,
        ).insert(2, C_BUFFER),
{
    let all = square_bindings(n);
    let none = Seq::<Binding>::empty();
    let first = none.push(all[0]);
    let second = first.push(all[1]);
    assert(all.drop_last() =~= second);
    assert(second.drop_last() =~= first);
    assert(first.drop_last() =~= none);
    reveal_with_fuel(Device::rebound, 4);
}

/// One product leaves it in place.
pub proof fn lemma_square_product(device: Device, n: usize)
    requires
        fits(n),
        n > 0,
        holds_squares(device, n),
    ensures
        device.after_step(square_product(n)) == (Device {
            buffers: device.buffers.insert(
                C_BUFFER,
                product_of(device.inputs[0], device.inputs[1], n as nat),
            ),
            ..device.idle()
        }),
        holds_squares(device.after_step(square_product(n)), n),
{
    let data = PushData::Matmul(PushMatmul { n: n as u32 });
    let groups = group_count(n as nat, TILE as nat) as u32;
    law_groups_cover_elements(n as nat, TILE as nat);
    assert(group_count(n as nat, TILE as nat) <= n + 15);
    let idle = device.idle();
    lemma_dispatch(idle, Kernel::Matmul, PRODUCT_SET, data, groups, groups);
    let ready = prepared(idle, Kernel::Matmul, PRODUCT_SET, data);
    assert(ready.may_dispatch());
    let product = product_of(device.inputs[0], device.inputs[1], n as nat);
    let made = ready.written(groups, groups).1;
    assert forall|i: int| 0 <= i < n * n implies made[i] == product[i] by {
        assert(i / (n as int) < n && i % (n as int) < n) by (nonlinear_arith)
            requires
                0 <= i < n * n,
                n > 0,
        ;
    }
    assert(made =~= product);
}

/// The release leads back to a bare device.
pub proof fn lemma_square_release(device: Device, n: usize)
    requires
        holds_squares(device, n),
    ensures
        device.after_steps(square_release()).sound,
        device.after_steps(square_release()).bare(),
        device.after_steps(square_release()).downloads == device.downloads,
        device.after_steps(square_release()).inputs == device.inputs,
{
    let steps = square_release();
    let s0 = Seq::<StepView>::empty();
    let s1 = s0.push(steps[0]);
    let s2 = s1.push(steps[1]);
    let s3 = s2.push(steps[2]);
    let s4 = s3.push(steps[3]);
    lemma_one_more_step(device, s0, steps[0]);
    lemma_one_more_step(device, s1, steps[1]);
    lemma_one_more_step(device, s2, steps[2]);
    lemma_one_more_step(device, s3, steps[3]);
    assert(steps =~= s4);
}

/// After a product, the download brings it and the release leaves nothing.
pub proof fn lemma_product_to_end(device: Device, n: usize)
    requires
        fits(n),
        n > 0,
        holds_squares(device, n),
    ensures
        ({
            let after = device.after_steps(
                seq![square_product(n), square_download(n)] + square_release(),
            );
            &&& after.sound
            &&& after.bare()
            &&& after.inputs == device.inputs
            &&& after.downloads == device.downloads.push(
                product_of(device.inputs[0], device.inputs[1], n as nat),
            )
        }),
{
    let s0 = Seq::<StepView>::empty();
    let s1 = s0.push(square_product(n));
    let s2 = s1.push(square_download(n));
    lemma_one_more_step(device, s0, square_product(n));
    lemma_one_more_step(device, s1, square_download(n));
    assert(seq![square_product(n), square_download(n)] =~= s2);
    lemma_steps_in_parts(device, s2, square_release());
    lemma_square_product(device, n);
    assert(n * n <= n * n * 4) by (nonlinear_arith)
        requires
            n > 0,
    ;
    let product = product_of(device.inputs[0], device.inputs[1], n as nat);
    assert(product.take((n * n) as int) =~= product);
    lemma_square_release(device.after_steps(s2), n);
}

/// Products and clock readings leave the matrices in place.
pub proof fn lemma_repeated_products(device: Device, n: usize, steps: Seq<StepView>)
    requires
        fits(n),
        n > 0,
        holds_squares(device, n),
        forall|i: int|
            0 <= i < steps.len() ==> (#[trigger] steps[i] is StartClock || steps[i] is StopClock
                || steps[i] == square_product(n)),
    ensures
        holds_squares(device.after_steps(steps), n),
        device.after_steps(steps).inputs == device.inputs,
        device.after_steps(steps).downloads == device.downloads,
    decreases steps.len(),
{
    if steps.len() > 0 {
        lemma_repeated_products(device, n, steps.drop_last());
        let before = device.after_steps(steps.drop_last());
        assert(steps.last() == steps[steps.len() - 1]);
        if steps.last() == square_product(n) {
            lemma_square_product(before, n);
        }
    }
}

/// On a device that computes exactly, the program brings back the product of
/// its inputs; no step of it is out of order, and nothing is left behind.
pub proof fn law_single_product_is_exact(device: Device, n: usize)
    requires
        device.sound,
        device.bare(),
        fits(n),
        n > 0,
        has_square_inputs(device, n),
    ensures
        ({
            let after = device.after_steps(single_product(n));
            &&& after.sound
            &&& after.bare()
            &&& after.downloads == device.downloads.push(
                product_of(device.inputs[0], device.inputs[1], n as nat),
            )
        }),
{
    let tail = seq![square_product(n), square_download(n)] + square_release();
    assert(single_product(n) =~= square_setup(n) + tail);
    lemma_steps_in_parts(device, square_setup(n), tail);
    lemma_square_setup(device, n);
    lemma_product_to_end(device.after_steps(square_setup(n)), n);
}

/// The identity matrix of `n` rows.
pub open spec fn identity_of(n: nat) -> Seq<int> {
    Seq::new(
        n * n,
        |i: int|
            if i / n as int == i % n as int {
                one()
            } else {
                0
            },
    )
}

proof fn lemma_identity_dot(a: Seq<int>, n: nat, row: int, col: int, k: nat)
    requires
        n > 0,
        a.len() == n * n,
        0 <= row < n,
        0 <= col < n,
        k <= n,
    ensures
        dot(a, identity_of(n), n, row, col, k) == if col < k {
            a[row * n + col] * one()
        } else {
            0
        },
    decreases k,
{
    if k > 0 {
        let last = k - 1;
        lemma_identity_dot(a, n, row, col, last as nat);
        let at = last * n + col;
        assert(0 <= at < n * n) by (nonlinear_arith)
            requires
                0 <= last < n,
                0 <= col < n,
                at == last * n + col,
        ;
        vstd::arithmetic::div_mod::lemma_fundamental_div_mod_converse(
            at,
            n as int,
            last,
            col,
        );
        assert(last * n == n * last) by (nonlinear_arith);
        assert(identity_of(n)[at] == if last == col {
            one()
        } else {
            0
        });
        if last != col {
            assert(a[row * n + last] * 0 == 0);
        }
    }
}

/// A matrix times the identity matrix is the matrix itself.
pub proof fn law_identity_keeps_the_matrix(a: Seq<int>, n: nat)
    requires
        n > 0,
        a.len() == n * n,
    ensures
        product_of(a, identity_of(n), n) == a,
{
    vstd::arithmetic::power2::lemma_pow2_pos(149);
    let product = product_of(a, identity_of(n), n);
    assert forall|i: int| 0 <= i < n * n implies product[i] == a[i] by {
        let row = i / n as int;
        let col = i % n as int;
        vstd::arithmetic::div_mod::lemma_fundamental_div_mod(i, n as int);
        assert(0 <= row < n && 0 <= col < n) by (nonlinear_arith)
            requires
                0 <= i < n * n,
                n > 0,
                row == i / n as int,
                col == i % n as int,
        ;
        assert(n * row == row * n) by (nonlinear_arith);
        lemma_identity_dot(a, n, row, col, n);
        vstd::arithmetic::div_mod::lemma_div_multiples_vanish(a[i], one());
        assert(a[i] * one() == one() * a[i]) by (nonlinear_arith);
    }
    assert(product =~= a);
}

} // verus!
