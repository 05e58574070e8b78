//! The machine: the shared memory, the processors in scheduling order, and
//! the round-robin scheduler that steps them and carries out replication.

use vstd::prelude::*;

use crate::cpu::{Cpu, Processor};
use crate::instruction::{replicates, Instruction};
use crate::soup::{first_fit, is_first_free_cell, lemma_first_fit, with_window_copied};

verus! {

/// Number of cells in the memory of a machine made by [`Universe::new`].
pub const SOUP_SIZE: usize = 10000;

/// The machine as it is stored. `cpus` is in insertion order, which is also
/// the scheduling order; `now_cpu_idx` is the processor that ran last.
pub struct Universe {
    pub soup: Vec<Option<Instruction>>,
    pub cpus: Vec<Cpu>,
    pub now_cpu_idx: usize,
    pub length: usize,
}

/// The mathematical model of a [`Universe`].
pub struct State {
    pub soup: Seq<Option<Instruction>>,
    pub processors: Seq<Processor>,
    pub now_index: int,
}

/// The models of a sequence of stored processors, in the same order.
pub open spec fn processors_of(cpus: Seq<Cpu>) -> Seq<Processor> {
    Seq::new(cpus.len(), |i: int| cpus[i]@)
}

/// The memory that a new machine starts from: a three-cell program at
/// addresses 0 to 2 that ends in the replicating opcode, and nothing else.
pub open spec fn seed_soup() -> Seq<Option<Instruction>> {
    Seq::new(
        SOUP_SIZE as nat,
        |a: int|
            if a == 0 {
                Some(Instruction::Nop0)
            } else if a == 1 {
                Some(Instruction::Nop1)
            } else if a == 2 {
                Some(Instruction::Divide)
            } else {
                None
            },
    )
}

impl View for Universe {
    type V = State;

    open spec fn view(&self) -> State {
        State {
            soup: self.soup@,
            processors: processors_of(self.cpus@),
            now_index: self.now_cpu_idx as int,
        }
    }
}

impl State {
    /// There is a processor to run, the cursor is on one of them, and every
    /// window is valid and lies inside the memory.
    pub open spec fn wf(self) -> bool {
        &&& self.processors.len() >= 1
        &&& 0 <= self.now_index < self.processors.len()
        &&& forall|i: int|
            0 <= i < self.processors.len() ==> (#[trigger] self.processors[i]).fits(
                self.soup.len() as int,
            )
    }

    /// The state of a new machine: the seed program and one processor bound
    /// to it, which counts as the one that ran last.
    pub open spec fn seed() -> State {
        State { soup: seed_soup(), processors: seq![Processor::at(0, 2)], now_index: 0 }
    }

    /// The state of a machine without memory and without processors. It is
    /// not well formed: there is nothing for a tick to run.
    pub open spec fn idle() -> State {
        State { soup: Seq::empty(), processors: Seq::empty(), now_index: 0 }
    }

    /// Index of the processor that the next tick runs: the one after the
    /// cursor, and the first one again after the last.
    pub open spec fn next_index(self) -> int {
        (self.now_index + 1) % (self.processors.len() as int)
    }

    /// The processor that the next tick runs, as it is before that tick.
    pub open spec fn runner(self) -> Processor {
        self.processors[self.next_index()]
    }

    /// The cell that the next tick executes.
    pub open spec fn fetched(self) -> Option<Instruction> {
        self.soup[self.runner().pointer]
    }

    /// Where the next tick puts a copy of the runner's window: the lowest
    /// unallocated cell if the executed cell replicates and the window fits
    /// into the memory from that cell on, and `None` otherwise.
    pub open spec fn destination(self) -> Option<int> {
        if replicates(self.fetched()) {
            first_fit(self.soup, self.runner().len())
        } else {
            None
        }
    }

    /// The state after one tick. The cursor moves to the runner and the
    /// runner advances by one step. If there is a destination, the runner's
    /// window is copied there and a processor bound to the copy is appended;
    /// otherwise memory and population stay as they are.
    pub open spec fn tick(self) -> State {
        let source = self.runner();
        let stepped = self.processors.update(self.next_index(), source.advance());
        match self.destination() {
            Some(dest) => State {
                soup: with_window_copied(self.soup, source.head, source.len(), dest),
                processors: stepped.push(Processor::at(dest, dest + source.len() - 1)),
                now_index: self.next_index(),
            },
            None => State {
                soup: self.soup,
                processors: stepped,
                now_index: self.next_index(),
            },
        }
    }

    /// The state after `n` ticks.
    pub open spec fn ticks(self, n: nat) -> State
        decreases n,
    {
        if n == 0 {
            self
        } else {
            self.ticks((n - 1) as nat).tick()
        }
    }
}

impl Universe {
    /// The stored machine is consistent: `length` is the capacity of the
    /// memory and the state is well formed.
    pub open spec fn wf(&self) -> bool {
        &&& self.length == self.soup@.len()
        &&& self@.wf()
    }

    /// A machine of [`SOUP_SIZE`] cells that holds the seed program and one
    /// processor bound to it.
    pub fn new() -> (universe: Universe)
        ensures
            universe.wf(),
            universe@ == State::seed(),
            universe.length == SOUP_SIZE,
    {
        let size: usize = SOUP_SIZE;

        let mut soup: Vec<Option<Instruction>> = vec![None; size];
        let first_instruction_index: usize = 0;
        let second_instruction_index: usize = 1;
        let third_instruction_index: usize = 2;
        soup[first_instruction_index] = Some(Instruction::Nop0);
        soup[second_instruction_index] = Some(Instruction::Nop1);
        soup[third_instruction_index] = Some(Instruction::Divide);

        let cpus: Vec<Cpu> = vec![Cpu::new(first_instruction_index, third_instruction_index)];
        let universe = Universe { soup: soup, cpus: cpus, now_cpu_idx: 0, length: size };
        proof {
            assert(universe@.soup =~= seed_soup());
            assert(universe@.processors =~= seq![Processor::at(0, 2)]);
        }
        universe
    }

    /// Decides [`Universe::wf`], for a caller that put the machine together
    /// by hand or cannot know where it comes from.
    pub fn is_valid(&self) -> (valid: bool)
        ensures
            valid == self.wf(),
    {
        let capacity: usize = self.soup.len();
        if self.length != capacity || self.cpus.len() == 0 || self.now_cpu_idx >= self.cpus.len() {
            return false;
        }
        let mut i: usize = 0;
        while i < self.cpus.len()
            invariant
                i <= self.cpus.len(),
                capacity == self.soup@.len(),
                forall|j: int|
                    0 <= j < i ==> (#[trigger] self@.processors[j]).fits(capacity as int),
            decreases self.cpus.len() - i,
        {
            if !self.cpus[i].is_valid(capacity) {
                assert(!self@.processors[i as int].fits(capacity as int));
                return false;
            }
            i += 1;
        }
        true
    }

    /// The fixed capacity of the memory.
    pub fn length(&self) -> (capacity: usize)
        ensures
            capacity == self.length,
            self.wf() ==> capacity == self@.soup.len(),
    {
        self.length
    }

    /// Advances the machine by one step of one processor. The cursor moves
    /// to the next processor in insertion order, that processor executes the
    /// cell under its pointer, and if the cell completed a replication the
    /// processor's window is copied to the cells that start at the lowest
    /// unallocated cell, and a processor bound to the copy joins the end of
    /// the schedule. When no cell is unallocated, or the window does not fit
    /// into the memory from the lowest one on, the replication is dropped:
    /// nothing is copied and the population stays as it is.
    pub fn tick(&mut self)
        requires
            old(self).wf(),
        ensures
            final(self).wf(),
            final(self)@ == old(self)@.tick(),
            final(self).length == old(self).length,
    {
        let ghost before = self@;
        proof {
            lemma_next_index(before);
            assert(self.now_cpu_idx < self.cpus.len());
        }
        self.now_cpu_idx += 1;
        if self.now_cpu_idx >= self.cpus.len() {
            self.now_cpu_idx = 0;
        }
        assert(self.now_cpu_idx == before.next_index());
        assert(before.processors[self.now_cpu_idx as int].fits(self.soup@.len() as int));
        if self.cpus[self.now_cpu_idx].tick(&self.soup) {
            let cell: Cpu = self.cpus[self.now_cpu_idx];
            let length: usize = cell.tail - cell.head + 1;
            match self.first_dead_soup(length) {
                Some(idx) => {
                    self.copy_window(cell.head, length, idx);
                    self.cpus.push(Cpu::new(idx, idx + (cell.tail - cell.head)));
                },
                None => {},
            }
        }
        proof {
            assert(self@.processors =~= before.tick().processors);
        }
    }

    /// The cell that the next tick executes, read without running it: the
    /// cell under the pointer of the processor after the cursor.
    pub fn fetch(&self) -> (cell: Option<Instruction>)
        requires
            self.wf(),
        ensures
            cell == self@.fetched(),
    {
        proof {
            lemma_next_index(self@);
            assert(self.now_cpu_idx < self.cpus.len());
        }
        let mut next: usize = self.now_cpu_idx + 1;
        if next >= self.cpus.len() {
            next = 0;
        }
        assert(self@.processors[next as int].fits(self.soup@.len() as int));
        self.cpus[next].fetch(&self.soup)
    }

    /// The processors in scheduling order, as they are after the last tick.
    pub fn cpus_ptr(&self) -> (cpus: &[Cpu])
        ensures
            cpus@ == self.cpus@,
            processors_of(cpus@) == self@.processors,
    {
        self.cpus.as_slice()
    }

    /// The cells of the memory in address order, as they are after the last
    /// tick.
    pub fn soup_ptr(&self) -> (soup: &[Option<Instruction>])
        ensures
            soup@ == self@.soup,
    {
        self.soup.as_slice()
    }

    /// The destination for a window of `length` cells: the lowest address
    /// whose cell is unallocated, if `length` cells from there on lie inside
    /// the memory; `None` when they do not, or when every cell holds an
    /// opcode. Only the anchor is looked at: the cells after it may hold
    /// opcodes. The scan is linear and keeps no state between calls.
    pub fn first_dead_soup(&self, length: usize) -> (found: Option<usize>)
        ensures
            match found {
                Some(idx) => is_first_free_cell(self.soup@, idx as int) && idx + length
                    <= self.soup@.len(),
                None => forall|a: int|
                    is_first_free_cell(self.soup@, a) ==> a + length > self.soup@.len(),
            },
            match found {
                Some(idx) => first_fit(self.soup@, length as int) == Some(idx as int),
                None => first_fit(self.soup@, length as int) is None,
            },
    {
        let size: usize = self.soup.len();
        let mut idx: usize = 0;
        while idx < size
            invariant
                size == self.soup@.len(),
                idx <= size,
                forall|b: int| 0 <= b < idx ==> (#[trigger] self.soup@[b]) is Some,
            decreases size - idx,
        {
            if self.soup[idx].is_none() {
                proof {
                    assert(is_first_free_cell(self.soup@, idx as int));
                    lemma_first_fit(self.soup@, length as int);
                }
                if length <= size - idx {
                    return Some(idx);
                }
                return None;
            }
            idx += 1;
        }
        proof {
            lemma_first_fit(self.soup@, length as int);
        }
        None
    }

    /// Copies the `length` cells from `head` on to the `length` cells from
    /// `dest` on, so that every destination cell holds what its source held
    /// before the call. Where the destination lies above the source the copy
    /// runs from the last cell down, so that an overlap loses nothing.
    fn copy_window(&mut self, head: usize, length: usize, dest: usize)
        requires
            head + length <= old(self).soup.len(),
            dest + length <= old(self).soup.len(),
        ensures
            final(self).soup@ == with_window_copied(
                old(self).soup@,
                head as int,
                length as int,
                dest as int,
            ),
            final(self).cpus == old(self).cpus,
            final(self).now_cpu_idx == old(self).now_cpu_idx,
            final(self).length == old(self).length,
    {
        let ghost before = self.soup@;
        if dest <= head {
            let mut n: usize = 0;
            while n < length
                invariant
                    n <= length,
                    dest <= head,
                    head + length <= before.len(),
                    self.soup.len() == before.len(),
                    self.cpus == old(self).cpus,
                    self.now_cpu_idx == old(self).now_cpu_idx,
                    self.length == old(self).length,
                    forall|a: int|
                        0 <= a < before.len() ==> #[trigger] self.soup@[a] == if dest <= a < dest
                            + n {
                            before[head + (a - dest)]
                        } else {
                            before[a]
                        },
                decreases length - n,
            {
                self.soup[dest + n] = self.soup[head + n];
                n += 1;
            }
        } else {
            let mut n: usize = length;
            while n > 0
                invariant
                    n <= length,
                    dest > head,
                    dest + length <= before.len(),
                    self.soup.len() == before.len(),
                    self.cpus == old(self).cpus,
                    self.now_cpu_idx == old(self).now_cpu_idx,
                    self.length == old(self).length,
                    forall|a: int|
                        0 <= a < before.len() ==> #[trigger] self.soup@[a] == if dest + n <= a
                            < dest + length {
                            before[head + (a - dest)]
                        } else {
                            before[a]
                        },
                decreases n,
            {
                n -= 1;
                self.soup[dest + n] = self.soup[head + n];
            }
        }
        assert(self.soup@ =~= with_window_copied(
            before,
            head as int,
            length as int,
            dest as int,
        ));
    }
}

impl Default for Universe {
    /// The idle machine: no cells, no processors, the cursor at zero. It is
    /// not well formed, so it cannot be ticked; [`Universe::new`] makes the
    /// machine that runs.
    fn default() -> (universe: Universe)
        ensures
            universe@ == State::idle(),
            universe.length == 0,
            !universe.wf(),
    {
        let universe = Universe { soup: Vec::new(), cpus: Vec::new(), now_cpu_idx: 0, length: 0 };
        proof {
            assert(universe@.processors =~= Seq::empty());
        }
        universe
    }
}

/// For a cursor on one of `n >= 1` processors, the next index is the cursor
/// plus one, or zero from the last processor.
pub proof fn lemma_next_index(state: State)
    requires
        state.processors.len() >= 1,
        0 <= state.now_index < state.processors.len(),
    ensures
        state.next_index() == if state.now_index + 1 == state.processors.len() {
            0
        } else {
            state.now_index + 1
        },
        0 <= state.next_index() < state.processors.len(),
{
    let n = state.processors.len() as int;
    if state.now_index + 1 == n {
        vstd::arithmetic::div_mod::lemma_mod_self_0(n);
    } else {
        vstd::arithmetic::div_mod::lemma_small_mod((state.now_index + 1) as nat, n as nat);
    }
}

} // verus!
