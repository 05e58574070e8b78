//! What holds of every well-formed machine, proved over the model.

use vstd::prelude::*;

use crate::cpu::Processor;
use crate::instruction::replicates;
use crate::soup::{first_fit, is_first_free_cell, lemma_first_fit};
use crate::universe::{lemma_next_index, State};

verus! {

/// Adding one before or after taking the remainder gives the same
/// remainder.
proof fn lemma_mod_succ(x: int, n: int)
    requires
        n > 0,
    ensures
        ((x % n) + 1) % n == (x + 1) % n,
{
    vstd::arithmetic::div_mod::lemma_add_mod_noop(x, 1, n);
    if n == 1 {
        vstd::arithmetic::div_mod::lemma_mod_bound((x % n) + 1, n);
        vstd::arithmetic::div_mod::lemma_mod_bound(x + 1, n);
    } else {
        vstd::arithmetic::div_mod::lemma_small_mod(1, n as nat);
    }
}

/// For `0 <= x < 2 * n`, the remainder of `x` by `n` is `x` or `x - n`; for
/// `-n <= x < 0` it is `x + n`.
proof fn lemma_mod_near(x: int, n: int)
    requires
        n > 0,
        -n <= x < 2 * n,
    ensures
        x % n == if x < 0 {
            x + n
        } else if x < n {
            x
        } else {
            x - n
        },
{
    if x < 0 {
        vstd::arithmetic::div_mod::lemma_small_mod((x + n) as nat, n as nat);
        vstd::arithmetic::div_mod::lemma_mod_add_multiples_vanish(x, n);
    } else if x < n {
        vstd::arithmetic::div_mod::lemma_small_mod(x as nat, n as nat);
    } else {
        vstd::arithmetic::div_mod::lemma_small_mod((x - n) as nat, n as nat);
        vstd::arithmetic::div_mod::lemma_mod_add_multiples_vanish(x - n, n);
    }
}

/// A step keeps a valid processor valid: the pointer stays inside the
/// window, and the window itself does not move.
pub proof fn lemma_advance_keeps_window(processor: Processor)
    requires
        processor.wf(),
    ensures
        processor.advance().wf(),
        processor.advance().head == processor.head,
        processor.advance().tail == processor.tail,
{
}

/// After any number of steps a valid processor is still valid, on the same
/// window, and its pointer is where circular counting from the start puts
/// it.
pub proof fn lemma_advance_by_keeps_window(processor: Processor, n: nat)
    requires
        processor.wf(),
    ensures
        processor.advance_by(n).wf(),
        processor.advance_by(n).head == processor.head,
        processor.advance_by(n).tail == processor.tail,
        processor.advance_by(n).pointer == processor.head + (processor.pointer - processor.head
            + n) % processor.len(),
    decreases n,
{
    let len = processor.len();
    let offset = processor.pointer - processor.head;
    if n == 0 {
        lemma_mod_near(offset, len);
    } else {
        lemma_advance_by_keeps_window(processor, (n - 1) as nat);
        let earlier = (offset + n - 1) % len;
        vstd::arithmetic::div_mod::lemma_mod_bound(offset + n - 1, len);
        lemma_mod_succ(offset + n - 1, len);
        lemma_mod_near(earlier + 1, len);
    }
}

/// A tick keeps the machine well formed, leaves the capacity of the memory
/// as it is, and removes no processor.
pub proof fn lemma_tick_keeps_wf(state: State)
    requires
        state.wf(),
    ensures
        state.tick().wf(),
        state.tick().soup.len() == state.soup.len(),
        state.tick().processors.len() >= state.processors.len(),
{
    lemma_next_index(state);
    lemma_first_fit(state.soup, state.runner().len());
}

/// In one tick exactly one processor steps, the one after the cursor, and
/// every other processor stays as it is; at most one processor is appended.
pub proof fn lemma_one_step_per_tick(state: State)
    requires
        state.wf(),
    ensures
        state.tick().now_index == state.next_index(),
        0 <= state.next_index() < state.processors.len(),
        forall|i: int|
            0 <= i < state.processors.len() ==> #[trigger] state.tick().processors[i] == if i
                == state.next_index() {
                state.processors[i].advance()
            } else {
                state.processors[i]
            },
        state.tick().processors.len() == state.processors.len() + if state.destination()
            is Some {
            1int
        } else {
            0int
        },
{
    lemma_next_index(state);
}

/// A replication copies the source window cell for cell, unallocated cells
/// included, to the cells that start at the lowest unallocated cell, which
/// all lie inside the memory. It binds the new processor to exactly those
/// cells with its pointer on the first one, and changes no other cell.
pub proof fn lemma_replication_is_faithful(state: State)
    requires
        state.wf(),
        state.destination() is Some,
    ensures
        ({
            let source = state.runner();
            let dest = state.destination().unwrap();
            let after = state.tick();
            &&& replicates(state.fetched())
            &&& is_first_free_cell(state.soup, dest)
            &&& dest + source.len() <= state.soup.len()
            &&& after.processors.len() == state.processors.len() + 1
            &&& after.processors.last() == (Processor {
                pointer: dest,
                head: dest,
                tail: dest + (source.tail - source.head),
            })
            &&& forall|i: int|
                0 <= i <= source.tail - source.head ==> #[trigger] after.soup[dest + i]
                    == state.soup[source.head + i]
            &&& forall|a: int|
                0 <= a < state.soup.len() && !(dest <= a <= dest + (source.tail - source.head))
                    ==> #[trigger] after.soup[a] == state.soup[a]
        }),
{
    lemma_next_index(state);
    lemma_first_fit(state.soup, state.runner().len());
    let source = state.runner();
    let dest = state.destination().unwrap();
    let after = state.tick();
    assert forall|i: int| 0 <= i <= source.tail - source.head implies #[trigger] after.soup[dest
        + i] == state.soup[source.head + i] by {
        assert(dest + i - dest == i);
    }
}

/// A tick that has no destination, because the executed cell does not
/// replicate or because the memory is exhausted for the window's length,
/// leaves the memory and the number of processors as they are.
pub proof fn lemma_no_destination_no_change(state: State)
    requires
        state.wf(),
        state.destination() is None,
    ensures
        state.tick().wf(),
        state.tick().soup == state.soup,
        state.tick().processors.len() == state.processors.len(),
{
    lemma_tick_keeps_wf(state);
}

/// Exhaustion is not an error: when the executed cell replicates and the
/// memory has no destination for the window's length, the tick still takes
/// place, the runner advances, and nothing else changes.
pub proof fn lemma_exhaustion_drops_replication(state: State)
    requires
        state.wf(),
        replicates(state.fetched()),
        first_fit(state.soup, state.runner().len()) is None,
    ensures
        state.tick().wf(),
        state.tick().soup == state.soup,
        state.tick().processors == state.processors.update(
            state.next_index(),
            state.runner().advance(),
        ),
        state.tick().now_index == state.next_index(),
{
    lemma_tick_keeps_wf(state);
}

/// Any number of ticks keeps the machine well formed, so every pointer
/// stays inside its window; the capacity stays fixed and no processor is
/// ever removed.
pub proof fn lemma_ticks_keep_wf(state: State, n: nat)
    requires
        state.wf(),
    ensures
        state.ticks(n).wf(),
        state.ticks(n).soup.len() == state.soup.len(),
        state.ticks(n).processors.len() >= state.processors.len(),
    decreases n,
{
    if n > 0 {
        lemma_ticks_keep_wf(state, (n - 1) as nat);
        lemma_tick_keeps_wf(state.ticks((n - 1) as nat));
    }
}

/// The window of a processor never changes, however many ticks pass.
pub proof fn lemma_windows_never_change(state: State, n: nat, i: int)
    requires
        state.wf(),
        0 <= i < state.processors.len(),
    ensures
        i < state.ticks(n).processors.len(),
        state.ticks(n).processors[i].head == state.processors[i].head,
        state.ticks(n).processors[i].tail == state.processors[i].tail,
    decreases n,
{
    if n > 0 {
        let earlier = state.ticks((n - 1) as nat);
        lemma_windows_never_change(state, (n - 1) as nat, i);
        lemma_ticks_keep_wf(state, (n - 1) as nat);
        lemma_one_step_per_tick(earlier);
    }
}

/// No processor is appended during the first `n` ticks from `state`.
pub open spec fn no_replication_within(state: State, n: nat) -> bool {
    forall|j: nat| j <= n ==> (#[trigger] state.ticks(j)).processors.len() == state.processors.len()
}

/// The number of the tick, counted from zero, in which processor `i` runs
/// during the round that starts at `state`.
pub open spec fn turn_of(state: State, i: int) -> int {
    (i - state.now_index - 1) % (state.processors.len() as int)
}

/// Round-robin order: while no processor is appended, the cursor moves
/// through the processors in insertion order, so that tick number `k`,
/// counted from zero, runs the processor at `(now_index + 1 + k) mod len`.
pub proof fn lemma_round_robin_order(state: State, k: nat)
    requires
        state.wf(),
        no_replication_within(state, k),
    ensures
        state.ticks(k).wf(),
        state.ticks(k).processors.len() == state.processors.len(),
        state.ticks(k).now_index == (state.now_index + k) % (state.processors.len() as int),
        state.ticks(k).next_index() == (state.now_index + 1 + k) % (state.processors.len() as int),
    decreases k,
{
    let n = state.processors.len() as int;
    lemma_ticks_keep_wf(state, k);
    if k == 0 {
        lemma_mod_near(state.now_index, n);
    } else {
        assert(no_replication_within(state, (k - 1) as nat));
        lemma_round_robin_order(state, (k - 1) as nat);
    }
    lemma_mod_succ(state.now_index + k, n);
}

/// What the first `k` ticks of a round without replication have done:
/// the processors whose turn has come have advanced by one step, the others
/// are as they were.
proof fn lemma_round_progress(state: State, k: nat)
    requires
        state.wf(),
        k <= state.processors.len(),
        no_replication_within(state, k),
    ensures
        state.ticks(k).processors.len() == state.processors.len(),
        forall|i: int|
            0 <= i < state.processors.len() ==> #[trigger] state.ticks(k).processors[i] == if turn_of(
                state,
                i,
            ) < k {
                state.processors[i].advance()
            } else {
                state.processors[i]
            },
    decreases k,
{
    let n = state.processors.len() as int;
    if k == 0 {
        assert forall|i: int| 0 <= i < n implies !(turn_of(state, i) < 0) by {
            lemma_mod_near(i - state.now_index - 1, n);
        }
    } else {
        assert(no_replication_within(state, (k - 1) as nat));
        lemma_round_progress(state, (k - 1) as nat);
        lemma_round_robin_order(state, (k - 1) as nat);
        lemma_one_step_per_tick(state.ticks((k - 1) as nat));
        lemma_mod_near(state.now_index + k, n);
        assert forall|i: int| 0 <= i < n implies #[trigger] state.ticks(k).processors[i] == if turn_of(
            state,
            i,
        ) < k {
            state.processors[i].advance()
        } else {
            state.processors[i]
        } by {
            lemma_mod_near(i - state.now_index - 1, n);
        }
    }
}

/// A round in which no processor stands on the replicating opcode changes
/// nothing but pointers: during its first `k` ticks no processor is appended
/// and the memory stays as it is.
pub proof fn lemma_round_without_divide(state: State, k: nat)
    requires
        state.wf(),
        k <= state.processors.len(),
        forall|i: int|
            0 <= i < state.processors.len() ==> !replicates(
                state.soup[(#[trigger] state.processors[i]).pointer],
            ),
    ensures
        no_replication_within(state, k),
        state.ticks(k).soup == state.soup,
    decreases k,
{
    if k > 0 {
        let n = state.processors.len() as int;
        let earlier = state.ticks((k - 1) as nat);
        lemma_round_without_divide(state, (k - 1) as nat);
        lemma_round_progress(state, (k - 1) as nat);
        lemma_round_robin_order(state, (k - 1) as nat);
        lemma_mod_near(state.now_index + k, n);
        let ran = earlier.next_index();
        lemma_mod_near(ran - state.now_index - 1, n);
        assert(earlier.runner() == state.processors[ran]);
        assert(earlier.destination() is None);
        assert forall|j: nat| j <= k implies (#[trigger] state.ticks(j)).processors.len()
            == state.processors.len() by {
            if j < k {
                assert(no_replication_within(state, (k - 1) as nat));
            }
        }
    }
}

/// Round-robin fairness: over as many ticks as there are processors, with
/// no replication among them, every processor runs in exactly one tick,
/// the ticks take the processors in insertion order starting after the
/// cursor, and at the end every processor has advanced by exactly one step
/// and the cursor is back where it was.
pub proof fn lemma_round_robin_is_fair(state: State)
    requires
        state.wf(),
        no_replication_within(state, state.processors.len()),
    ensures
        forall|k: nat|
            k < state.processors.len() ==> (#[trigger] state.ticks(k)).next_index() == (
            state.now_index + 1 + k) % (state.processors.len() as int),
        forall|i: int, k: nat|
            0 <= i < state.processors.len() && k < state.processors.len() ==> ((
            #[trigger] state.ticks(k)).next_index() == i <==> k == #[trigger] turn_of(state, i)),
        forall|i: int|
            0 <= i < state.processors.len() ==> 0 <= #[trigger] turn_of(state, i)
                < state.processors.len(),
        state.ticks(state.processors.len()).processors.len() == state.processors.len(),
        forall|i: int|
            0 <= i < state.processors.len() ==> #[trigger] state.ticks(
                state.processors.len(),
            ).processors[i] == state.processors[i].advance(),
        state.ticks(state.processors.len()).now_index == state.now_index,
{
    let n = state.processors.len();
    assert forall|k: nat| k < n implies (#[trigger] state.ticks(k)).next_index() == (
    state.now_index + 1 + k) % (n as int) by {
        assert(no_replication_within(state, k));
        lemma_round_robin_order(state, k);
    }
    assert forall|i: int, k: nat| 0 <= i < n && k < n implies ((#[trigger] state.ticks(
        k,
    )).next_index() == i <==> k == #[trigger] turn_of(state, i)) by {
        lemma_mod_near(state.now_index + 1 + k, n as int);
        lemma_mod_near(i - state.now_index - 1, n as int);
    }
    assert forall|i: int| 0 <= i < n implies 0 <= #[trigger] turn_of(state, i) < n by {
        lemma_mod_near(i - state.now_index - 1, n as int);
    }
    lemma_round_progress(state, n);
    lemma_round_robin_order(state, n);
    lemma_mod_near(state.now_index + n, n as int);
}

} // verus!
