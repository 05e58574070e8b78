//! The shared memory as a sequence of cells, and what allocation and
//! copying mean on it.
//!
//! Allocation anchors at the first empty cell: the destination for a window
//! of `length` cells is the lowest address that holds nothing, provided that
//! `length` cells from there on lie inside the memory. The cells after the
//! anchor are not looked at, so a copy may overwrite opcodes that stand
//! there, whichever processor's window they belong to. When the lowest empty
//! cell is too close to the end of the memory, or no cell is empty, the
//! memory is exhausted for that length.

use vstd::prelude::*;

use crate::instruction::Instruction;

verus! {

/// `a` is the lowest address whose cell is unallocated.
pub open spec fn is_first_free_cell(soup: Seq<Option<Instruction>>, a: int) -> bool {
    &&& 0 <= a < soup.len()
    &&& soup[a] is None
    &&& forall|b: int| 0 <= b < a ==> (#[trigger] soup[b]) is Some
}

/// The lowest address whose cell is unallocated, or `None` when every cell
/// holds an opcode.
pub open spec fn first_free_cell(soup: Seq<Option<Instruction>>) -> Option<int> {
    if exists|a: int| is_first_free_cell(soup, a) {
        Some(choose|a: int| is_first_free_cell(soup, a))
    } else {
        None
    }
}

/// The destination for `length` cells: the lowest unallocated cell if
/// `length` cells from there on lie inside the memory, and `None` when they
/// do not or when no cell is unallocated.
pub open spec fn first_fit(soup: Seq<Option<Instruction>>, length: int) -> Option<int> {
    match first_free_cell(soup) {
        Some(a) => if a + length <= soup.len() {
            Some(a)
        } else {
            None
        },
        None => None,
    }
}

/// The memory after the `length` cells from `head` on have been copied to
/// the `length` cells from `dest` on. Every copied cell holds what its source
/// held before the copy, also where the two ranges overlap; every other cell
/// is unchanged.
pub open spec fn with_window_copied(
    soup: Seq<Option<Instruction>>,
    head: int,
    length: int,
    dest: int,
) -> Seq<Option<Instruction>> {
    Seq::new(
        soup.len(),
        |a: int|
            if dest <= a < dest + length {
                soup[head + (a - dest)]
            } else {
                soup[a]
            },
    )
}

/// Where some cell is unallocated, a lowest such cell exists.
pub proof fn lemma_first_free_cell_exists(soup: Seq<Option<Instruction>>, a: int)
    requires
        0 <= a < soup.len(),
        soup[a] is None,
    ensures
        exists|first: int| is_first_free_cell(soup, first),
    decreases a,
{
    if exists|b: int| 0 <= b < a && soup[b] is None {
        let b = choose|b: int| 0 <= b < a && soup[b] is None;
        lemma_first_free_cell_exists(soup, b);
    } else {
        assert(is_first_free_cell(soup, a));
    }
}

/// `first_free_cell` is `Some(a)` exactly for the lowest unallocated cell,
/// and `None` exactly when every cell holds an opcode.
pub proof fn lemma_first_free_cell(soup: Seq<Option<Instruction>>)
    ensures
        match first_free_cell(soup) {
            Some(a) => is_first_free_cell(soup, a),
            None => forall|b: int| 0 <= b < soup.len() ==> (#[trigger] soup[b]) is Some,
        },
        forall|a: int| is_first_free_cell(soup, a) ==> first_free_cell(soup) == Some(a),
{
    if first_free_cell(soup) is None {
        assert forall|b: int| 0 <= b < soup.len() implies (#[trigger] soup[b]) is Some by {
            if soup[b] is None {
                lemma_first_free_cell_exists(soup, b);
            }
        }
    }
}

/// `first_fit` gives an address exactly when the lowest unallocated cell
/// leaves room for `length` cells, and then gives that cell.
pub proof fn lemma_first_fit(soup: Seq<Option<Instruction>>, length: int)
    ensures
        match first_fit(soup, length) {
            Some(a) => is_first_free_cell(soup, a) && a + length <= soup.len(),
            None => forall|a: int| is_first_free_cell(soup, a) ==> a + length > soup.len(),
        },
        forall|a: int|
            is_first_free_cell(soup, a) && a + length <= soup.len() ==> first_fit(soup, length)
                == Some(a),
{
    lemma_first_free_cell(soup);
}

} // verus!
