//! What a device does while the clock runs.
use vstd::prelude::*;

#[allow(unused_imports)]
use super::bandwidth::{
    bandwidth_program, chain, chain_step, op_set, push_of, release_program, run_program,
    runs_program, setup_steps, warm_program, LOCAL_SIZE, OPS, RUNS, START_VALUE,
};
#[allow(unused_imports)]
use super::matmul::{iteration_count, size_program, timed_products, timings, REPEATS};
#[allow(unused_imports)]
use super::square::{
    fits, square_download, square_product, square_release, square_setup, PRODUCT_SET, TILE,
};
#[allow(unused_imports)]
use super::PushMatmul;
#[allow(unused_imports)]
use crate::compute::Kernel;
#[allow(unused_imports)]
use crate::program::{
    compute_barrier, dispatch_1d, dispatch_2d, group_count, law_groups_cover_elements, plain_tasks,
    Command, PushData, StepView,
};
#[allow(unused_imports)]
use crate::session::steps_of;

verus! {

/// The kernel that is bound before a command.
pub open spec fn bound_kernel(commands: Seq<Command>, at: int) -> Option<Kernel>
    decreases at,
{
    if at <= 0 {
        None
    } else {
        match commands[at - 1] {
            Command::BindPipeline { kernel, .. } => Some(kernel),
            _ => bound_kernel(commands, at - 1),
        }
    }
}

/// The push constants that hold before a command.
pub open spec fn pushed_data(commands: Seq<Command>, at: int) -> PushData
    decreases at,
{
    if at <= 0 {
        PushData::Empty
    } else {
        match commands[at - 1] {
            Command::PushConstants { data, .. } => data,
            _ => pushed_data(commands, at - 1),
        }
    }
}

/// The places of the dispatches among commands.
pub open spec fn dispatches(commands: Seq<Command>) -> Set<int> {
    Set::new(|i: int| 0 <= i < commands.len() && commands[i] is Dispatch)
}

/// Whether a command adds all of `count` numbers.
pub open spec fn adds_all(commands: Seq<Command>, at: int, count: usize) -> bool {
    &&& bound_kernel(commands, at) == Some(Kernel::VectorAdd)
    &&& pushed_data(commands, at) matches PushData::Count1f(push) && push.count == count
    &&& commands[at] matches Command::Dispatch { x, y, z } && x * 256 >= count && y == 1 && z == 1
}

/// Whether a command multiplies square matrices of `n` rows, all of them.
pub open spec fn multiplies_all(commands: Seq<Command>, at: int, n: usize) -> bool {
    &&& bound_kernel(commands, at) == Some(Kernel::Matmul)
    &&& pushed_data(commands, at) matches PushData::Matmul(push) && push.n == n
    &&& commands[at] matches Command::Dispatch { x, y, z } && x * 16 >= n && y * 16 >= n && z == 1
}

/// The places at which the clock is started.
pub open spec fn clock_starts(steps: Seq<StepView>) -> Set<int> {
    Set::new(|i: int| 0 <= i < steps.len() && steps[i] is StartClock)
}

/// Earlier commands are not changed by later ones.
proof fn lemma_state_before(first: Seq<Command>, second: Seq<Command>, at: int)
    requires
        at <= first.len(),
    ensures
        bound_kernel(first + second, at) == bound_kernel(first, at),
        pushed_data(first + second, at) == pushed_data(first, at),
    decreases at,
{
    if at > 0 {
        lemma_state_before(first, second, at - 1);
    }
}

proof fn lemma_chain_dispatches(count: usize, ops: nat)
    requires
        0 < count,
        count + 255 <= u32::MAX,
    ensures
        dispatches(chain(count, ops)).finite(),
        dispatches(chain(count, ops)).len() == ops,
        forall|i: int| #[trigger]
            dispatches(chain(count, ops)).contains(i) ==> adds_all(chain(count, ops), i, count),
    decreases ops,
{
    if ops == 0 {
        assert(dispatches(chain(count, 0)) =~= Set::empty());
    } else {
        let last = (ops - 1) as nat;
        lemma_chain_dispatches(count, last);
        let before = chain(count, last);
        let data = push_of(count, START_VALUE);
        let add = dispatch_1d(Kernel::VectorAdd, op_set(last), data, count as u32, LOCAL_SIZE);
        let more = add + seq![compute_barrier()];
        let all = chain(count, ops);
        assert(all =~= before + more);
        let at = before.len() as int + 3;
        assert(add.len() == 4);
        assert(all[at] == add[3]);
        assert(dispatches(all) =~= dispatches(before).insert(at));
        assert(!dispatches(before).contains(at));
        law_groups_cover_elements(count as nat, 256);
        assert(group_count(count as nat, 256) <= count + 255);
        assert(all[at - 1] == add[2] && all[at - 2] == add[1] && all[at - 3] == add[0]);
        reveal_with_fuel(bound_kernel, 4);
        reveal_with_fuel(pushed_data, 4);
        assert(adds_all(all, at, count));
        assert forall|i: int| #[trigger] dispatches(all).contains(i) implies adds_all(
            all,
            i,
            count,
        ) by {
            if i != at {
                assert(dispatches(before).contains(i));
                assert(adds_all(before, i, count));
                lemma_state_before(before, more, i);
                assert(all[i] == before[i]);
            }
        }
    }
}

/// The tasks of the runs, one by one.
proof fn lemma_runs(count: usize, runs: nat)
    requires
        runs <= usize::MAX,
    ensures
        runs_program(count, runs).len() == 9 * runs,
        forall|r: int, k: int|
            0 <= r < runs && 0 <= k < 9 ==> #[trigger] runs_program(count, runs)[9 * r + k]
                == run_program(count, r as usize)[k],
    decreases runs,
{
    if runs > 0 {
        lemma_runs(count, (runs - 1) as nat);
        let before = runs_program(count, (runs - 1) as nat);
        let all = runs_program(count, runs);
        assert(all =~= before + run_program(count, (runs - 1) as usize));
        assert forall|r: int, k: int| 0 <= r < runs && 0 <= k < 9 implies #[trigger] all[9 * r + k]
            == run_program(count, r as usize)[k] by {
            if r < runs - 1 {
                assert(before[9 * r + k] == run_program(count, r as usize)[k]);
            }
        }
    }
}

/// The steps of the bandwidth measurement, by their places.
proof fn lemma_bandwidth_steps(count: usize)
    ensures
        ({
            let steps = steps_of(bandwidth_program(count));
            &&& steps.len() == 57
            &&& forall|i: int| 0 <= i < 11 ==> #[trigger] steps[i] == setup_steps(
                (count * 4) as u64,
            )[i]
            &&& forall|i: int| 11 <= i < 16 ==> #[trigger] steps[i] == warm_program(count)[i
                - 11].step
            &&& forall|i: int|
                16 <= i < 52 ==> #[trigger] steps[i] == run_program(
                    count,
                    ((i - 16) / 9) as usize,
                )[(i - 16) % 9].step
            &&& forall|i: int| 52 <= i < 57 ==> #[trigger] steps[i] == release_program()[i - 52]
        }),
{
    lemma_runs(count, 4);
    let setup = plain_tasks(setup_steps((count * 4) as u64));
    let warm = warm_program(count);
    let runs = runs_program(count, 4);
    let steps = steps_of(bandwidth_program(count));
    assert(bandwidth_program(count) == setup + warm + runs + plain_tasks(release_program()));
    assert forall|i: int| 16 <= i < 52 implies #[trigger] steps[i] == run_program(
        count,
        ((i - 16) / 9) as usize,
    )[(i - 16) % 9].step by {
        let r = (i - 16) / 9;
        let k = (i - 16) % 9;
        assert(runs[9 * r + k] == run_program(count, r as usize)[k]);
        assert(steps[i] == runs[i - 16].step);
    }
}

/// In every run of the bandwidth measurement the clock runs during exactly one
/// execution, and that is of eight additions, each of all numbers of the buffers.
/// The clock is started four times, and stopped after each, and the additions have
/// been made once before. So twenty-four times the bytes of a buffer are moved
/// while it runs.
pub proof fn law_the_clock_times_the_additions(count: usize)
    requires
        0 < count,
        count * 4 <= usize::MAX,
        count + 255 <= u32::MAX,
    ensures
        ({
            let steps = steps_of(bandwidth_program(count));
            &&& clock_starts(steps).len() == 4
            &&& forall|i: int| #[trigger]
                clock_starts(steps).contains(i) ==> {
                    let commands = steps[i + 1]->commands;
                    &&& i + 2 < steps.len()
                    &&& steps[i + 1] is Execute
                    &&& steps[i + 2] is StopClock
                    &&& dispatches(commands).len() == 8
                    &&& forall|k: int| #[trigger]
                        dispatches(commands).contains(k) ==> adds_all(commands, k, count)
                }
            &&& forall|i: int|
                0 <= i < steps.len() && #[trigger] steps[i] is StopClock ==> clock_starts(
                    steps,
                ).contains(i - 2)
            &&& exists|w: int|
                {
                    &&& 0 <= w < steps.len()
                    &&& #[trigger] steps[w] is Execute
                    &&& dispatches(steps[w]->commands).len() == 8
                    &&& forall|i: int| #[trigger] clock_starts(steps).contains(i) ==> w < i
                }
        }),
        OPS == 8,
        RUNS == 4,
{
    let steps = steps_of(bandwidth_program(count));
    lemma_bandwidth_steps(count);
    lemma_chain_dispatches(count, 8);
    let starts = set![18int, 27int, 36int, 45int];
    assert forall|i: int| 0 <= i < 57 implies (#[trigger] steps[i] is StartClock <==> i == 18 || i
        == 27 || i == 36 || i == 45) && (steps[i] is StopClock <==> i == 20 || i == 29 || i == 38
        || i == 47) by {
        if 16 <= i < 52 {
            let t = run_program(count, ((i - 16) / 9) as usize);
            let k = (i - 16) % 9;
            assert(t[k].step is StartClock <==> k == 2);
            assert(t[k].step is StopClock <==> k == 4);
        }
    }
    assert(clock_starts(steps) =~= starts);
    assert(starts.len() == 4);
    assert(steps[15] == warm_program(count)[4].step);
    assert(steps[15] == chain_step(count));
    assert forall|i: int| #[trigger] clock_starts(steps).contains(i) implies steps[i + 1]
        == chain_step(count) && steps[i + 2] is StopClock by {
        let t = run_program(count, ((i - 16) / 9) as usize);
        assert(t[3].step == chain_step(count));
        assert(steps[i + 1] == t[3].step);
    }
}

/// A product of all of two square matrices, as one execution.
pub open spec fn is_whole_product(step: StepView, n: usize) -> bool {
    &&& step is Execute
    &&& dispatches(step->commands).len() == 1
    &&& forall|k: int| #[trigger]
        dispatches(step->commands).contains(k) ==> multiplies_all(step->commands, k, n)
}

proof fn lemma_whole_product(n: usize)
    requires
        fits(n),
        n > 0,
    ensures
        is_whole_product(square_product(n), n),
{
    let data = PushData::Matmul(PushMatmul { n: n as u32 });
    let commands = dispatch_2d(Kernel::Matmul, PRODUCT_SET, data, n as u32, TILE);
    assert(commands.len() == 4);
    assert(dispatches(commands) =~= set![3int]);
    assert(set![3int].len() == 1);
    law_groups_cover_elements(n as nat, 16);
    assert(group_count(n as nat, 16) <= n + 15);
    reveal_with_fuel(bound_kernel, 4);
    reveal_with_fuel(pushed_data, 4);
    assert(commands[0] is BindPipeline && commands[2] is PushConstants);
    assert(multiplies_all(commands, 3, n));
}

/// How many products a timing takes: ten of matrices of up to 512 rows, five of up
/// to 1024, three of larger ones.
pub open spec fn products_timed(n: usize) -> int {
    if n > 1024 {
        3
    } else if n > 512 {
        5
    } else {
        10
    }
}

/// A size is timed three times. Each time the clock runs during as many products
/// as a timing takes, one after the other, and during nothing else. One product
/// comes before the clock is first started, and one after it last stopped, which
/// is the one that is brought back.
pub proof fn law_the_clock_times_the_products(n: usize)
    requires
        fits(n),
        n > 0,
    ensures
        ({
            let steps = size_program(n);
            let k = products_timed(n);
            &&& clock_starts(steps).len() == 3
            &&& forall|i: int| #[trigger]
                clock_starts(steps).contains(i) ==> {
                    &&& i + k + 1 < steps.len()
                    &&& steps[i + k + 1] is StopClock
                    &&& forall|j: int|
                        i < j <= i + k ==> is_whole_product(#[trigger] steps[j], n)
                    &&& is_whole_product(steps[i - 1], n) || steps[i - 1] is StopClock
                }
            &&& forall|i: int|
                0 <= i < steps.len() && #[trigger] steps[i] is StopClock ==> clock_starts(
                    steps,
                ).contains(i - k - 1)
            &&& exists|d: int|
                {
                    &&& 2 <= d < steps.len()
                    &&& #[trigger] steps[d] is Download
                    &&& is_whole_product(steps[d - 1], n)
                    &&& steps[d - 2] is StopClock
                }
        }),
        iteration_count(n) == products_timed(n),
        REPEATS == 3,
{
    lemma_whole_product(n);
    let k = products_timed(n);
    let timed = timed_products(n);
    let all = timings(n, 3);
    reveal_with_fuel(timings, 4);
    let head = square_setup(n).push(square_product(n));
    let tail = seq![square_product(n), square_download(n)] + square_release();
    let steps = size_program(n);
    assert(timed.len() == k + 2);
    assert(all =~= timed + timed + timed);
    assert(steps =~= head + all + tail);
    assert(head.len() == 9);
    let first: int = 9;
    let second = 9 + (k + 2);
    let third = 9 + 2 * (k + 2);
    assert forall|j: int| 0 <= j < k + 2 implies #[trigger] steps[first + j] == timed[j]
        && steps[second + j] == timed[j] && steps[third + j] == timed[j] by {
        assert(all[j] == timed[j]);
        assert(all[(k + 2) + j] == timed[j]);
        assert(all[2 * (k + 2) + j] == timed[j]);
    }
    assert forall|j: int| 0 <= j < k + 2 implies (#[trigger] timed[j] is StartClock <==> j == 0) && (
    timed[j] is StopClock <==> j == k + 1) && (0 < j <= k ==> timed[j] == square_product(n)) by {
    }
    let end = 9 + 3 * (k + 2);
    assert forall|i: int| 0 <= i < steps.len() implies (#[trigger] steps[i] is StartClock <==> i
        == first || i == second || i == third) && (steps[i] is StopClock <==> i == first + k + 1
        || i == second + k + 1 || i == third + k + 1) by {
        if first <= i < second {
            assert(steps[first + (i - first)] == timed[i - first]);
        } else if second <= i < third {
            assert(steps[first + (i - second)] == timed[i - second]);
        } else if third <= i < end {
            assert(steps[first + (i - third)] == timed[i - third]);
        } else if i < first {
            assert(steps[i] == head[i]);
        } else {
            assert(steps[i] == tail[i - end]);
        }
    }
    let starts = set![first, second, third];
    assert(clock_starts(steps) =~= starts);
    assert(starts.len() == 3);
    assert(steps[8] == head[8]);
    assert(steps[end] == tail[0] && steps[end + 1] == tail[1]);
    assert(steps[end + 1] is Download && is_whole_product(steps[end + 1 - 1], n));
    assert(steps[first + 0] == timed[0] && steps[first + (k + 1)] == timed[k + 1]);
    assert forall|i: int| #[trigger] clock_starts(steps).contains(i) implies (forall|j: int|
        i < j <= i + k ==> is_whole_product(#[trigger] steps[j], n)) && steps[i + k + 1] is StopClock
        by {
        assert forall|j: int| i < j <= i + k implies is_whole_product(#[trigger] steps[j], n) by {
            assert(steps[first + (j - i)] == timed[j - i]);
            assert(timed[j - i] == square_product(n));
        }
    }
}

} // verus!
