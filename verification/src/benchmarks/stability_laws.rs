//! What the load does on a device that computes exactly.
use vstd::prelude::*;

#[allow(unused_imports)]
use super::square::{fits, square_download, square_product, square_release, square_setup};
#[allow(unused_imports)]
use super::square_laws::{
    has_square_inputs, holds_squares, lemma_square_product, lemma_square_release,
    lemma_square_setup, product_of,
};
#[allow(unused_imports)]
use super::stability::{iteration_program, reference_program, SIZE};
#[allow(unused_imports)]
use crate::ideal::{lemma_one_more_step, lemma_steps_in_parts, Device};
#[allow(unused_imports)]
use crate::program::StepView;

verus! {

/// The steps of some iterations.
pub open spec fn iterations_program(iterations: nat) -> Seq<StepView>
    decreases iterations,
{
    if iterations == 0 {
        seq![]
    } else {
        iterations_program((iterations - 1) as nat) + iteration_program()
    }
}

pub proof fn lemma_product_and_download(device: Device)
    requires
        holds_squares(device, SIZE),
    ensures
        holds_squares(device.after_steps(iteration_program()), SIZE),
        device.after_steps(iteration_program()).inputs == device.inputs,
        device.after_steps(iteration_program()).downloads == device.downloads.push(
            product_of(device.inputs[0], device.inputs[1], SIZE as nat),
        ),
{
    assert(fits(SIZE));
    let s0 = Seq::<StepView>::empty();
    let s1 = s0.push(square_product(SIZE));
    let s2 = s1.push(square_download(SIZE));
    lemma_one_more_step(device, s0, square_product(SIZE));
    lemma_one_more_step(device, s1, square_download(SIZE));
    assert(iteration_program() =~= s2);
    lemma_square_product(device, SIZE);
    let product = product_of(device.inputs[0], device.inputs[1], SIZE as nat);
    assert(product.len() == 1_048_576);
    assert(product.take(1_048_576) =~= product);
}

proof fn lemma_iterations(device: Device, iterations: nat)
    requires
        holds_squares(device, SIZE),
    ensures
        ({
            let after = device.after_steps(iterations_program(iterations));
            &&& holds_squares(after, SIZE)
            &&& after.inputs == device.inputs
            &&& after.downloads == device.downloads + Seq::new(
                iterations,
                |i: int| product_of(device.inputs[0], device.inputs[1], SIZE as nat),
            )
        }),
    decreases iterations,
{
    let product = product_of(device.inputs[0], device.inputs[1], SIZE as nat);
    if iterations == 0 {
        assert(device.downloads + Seq::new(0, |i: int| product) =~= device.downloads);
    } else {
        let fewer = (iterations - 1) as nat;
        lemma_iterations(device, fewer);
        lemma_steps_in_parts(device, iterations_program(fewer), iteration_program());
        lemma_product_and_download(device.after_steps(iterations_program(fewer)));
        assert(device.after_steps(iterations_program(iterations)).downloads =~= device.downloads
            + Seq::new(iterations, |i: int| product));
    }
}

/// On a device that computes exactly, every iteration brings back what the
/// reference holds; no step is out of order, and the release leaves nothing
/// behind, however many iterations there were.
pub proof fn law_iterations_repeat_the_reference(device: Device, iterations: nat)
    requires
        device.sound,
        device.bare(),
        has_square_inputs(device, SIZE),
    ensures
        ({
            let after = device.after_steps(reference_program()).after_steps(
                iterations_program(iterations),
            ).after_steps(square_release());
            &&& after.sound
            &&& after.bare()
            &&& after.downloads == device.downloads + Seq::new(
                iterations + 1,
                |i: int| product_of(device.inputs[0], device.inputs[1], SIZE as nat),
            )
        }),
{
    assert(fits(SIZE));
    let product = product_of(device.inputs[0], device.inputs[1], SIZE as nat);
    assert(reference_program() =~= square_setup(SIZE) + iteration_program());
    lemma_steps_in_parts(device, square_setup(SIZE), iteration_program());
    lemma_square_setup(device, SIZE);
    let ready = device.after_steps(square_setup(SIZE));
    lemma_product_and_download(ready);
    let referred = ready.after_steps(iteration_program());
    lemma_iterations(referred, iterations);
    let iterated = referred.after_steps(iterations_program(iterations));
    lemma_square_release(iterated, SIZE);
    assert(iterated.downloads =~= device.downloads + Seq::new(
        iterations + 1,
        |i: int| product,
    ));
}

} // verus!
