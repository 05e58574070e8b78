//! One execution context: an instruction pointer bound to a circular
//! window of the shared memory.

use vstd::prelude::*;

use crate::instruction::{is_replicate, replicates, Instruction};

verus! {

/// A processor as the machine stores it. The window `[head, tail]` is a
/// logical addressing range only: it protects no cell against being read,
/// copied or overwritten through another processor.
#[derive(Clone, Copy, Debug, PartialEq, Eq, Structural)]
pub struct Cpu {
    pub program_counter: usize,
    pub head: usize,
    pub tail: usize,
}

/// The mathematical model of a [`Cpu`].
pub struct Processor {
    pub pointer: int,
    pub head: int,
    pub tail: int,
}

impl View for Cpu {
    type V = Processor;

    open spec fn view(&self) -> Processor {
        Processor {
            pointer: self.program_counter as int,
            head: self.head as int,
            tail: self.tail as int,
        }
    }
}

impl Processor {
    /// The pointer lies inside a non-empty window of non-negative addresses.
    pub open spec fn wf(self) -> bool {
        0 <= self.head <= self.pointer <= self.tail
    }

    /// The window is valid and lies inside a memory of `capacity` cells.
    pub open spec fn fits(self, capacity: int) -> bool {
        self.wf() && self.tail < capacity
    }

    /// Number of cells in the window.
    pub open spec fn len(self) -> int {
        self.tail - self.head + 1
    }

    /// The processor after one step: the pointer moves on by one cell and
    /// goes back to `head` once it has passed `tail`.
    pub open spec fn advance(self) -> Processor {
        Processor {
            pointer: if self.pointer + 1 > self.tail {
                self.head
            } else {
                self.pointer + 1
            },
            head: self.head,
            tail: self.tail,
        }
    }

    /// The processor after `n` steps.
    pub open spec fn advance_by(self, n: nat) -> Processor
        decreases n,
    {
        if n == 0 {
            self
        } else {
            self.advance_by((n - 1) as nat).advance()
        }
    }

    /// A fresh processor on the window `[head, tail]`, about to execute the
    /// first cell of it.
    pub open spec fn at(head: int, tail: int) -> Processor {
        Processor { pointer: head, head, tail }
    }
}

impl Cpu {
    /// A processor bound to the window `[head, tail]`, with its pointer on
    /// `head`. The result is well formed exactly when `head <= tail`.
    pub fn new(head: usize, tail: usize) -> (cpu: Cpu)
        ensures
            cpu@ == Processor::at(head as int, tail as int),
            cpu@.wf() <==> head <= tail,
    {
        Cpu { program_counter: head, head: head, tail: tail }
    }

    /// Decides whether the processor is valid inside a memory of `capacity`
    /// cells: `head <= program_counter <= tail < capacity`.
    pub fn is_valid(&self, capacity: usize) -> (valid: bool)
        ensures
            valid == self@.fits(capacity as int),
    {
        self.head <= self.program_counter && self.program_counter <= self.tail && self.tail
            < capacity
    }

    /// The cell under the pointer, which the next step executes.
    pub fn fetch(&self, soup: &[Option<Instruction>]) -> (cell: Option<Instruction>)
        requires
            self.program_counter < soup.len(),
        ensures
            cell == soup@[self@.pointer],
    {
        soup[self.program_counter]
    }

    /// Executes the cell under the pointer and moves the pointer on, wrapping
    /// inside the window. Returns `true` exactly when that cell completed a
    /// replication. No cell has an effect on the memory, and the pointer
    /// moves whatever the cell held.
    pub fn tick(&mut self, soup: &[Option<Instruction>]) -> (replicated: bool)
        requires
            old(self).program_counter < soup.len(),
        ensures
            final(self)@ == old(self)@.advance(),
            replicated == replicates(soup@[old(self)@.pointer]),
            old(self)@.wf() ==> final(self)@.wf(),
    {
        let cell = self.fetch(soup);
        let replicated = is_replicate(cell);
        self.inc_counter();
        replicated
    }

    /// Moves the pointer to the next cell of the window, and back to `head`
    /// from `tail`.
    fn inc_counter(&mut self)
        requires
            old(self).program_counter < usize::MAX,
        ensures
            final(self)@ == old(self)@.advance(),
    {
        self.program_counter += 1;
        if self.program_counter > self.tail {
            self.program_counter = self.head;
        }
    }
}

} // verus!
