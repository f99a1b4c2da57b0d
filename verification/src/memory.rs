//! An estimate of the memory that each map needs for an entry, from the load
//! factor and the layout of its table.

use vstd::prelude::*;
use vstd::string::*;
use crate::report::{
    push_quotient, push_quotient_column, quotient, quotient_of, quotient_text, Quotient,
};
use crate::text::right_aligned;

verus! {

/// The bytes of one entry: a key and a value of 8 bytes each.
pub const ENTRY_BYTES: usize = 16;

/// The control bytes that the Swiss table adds behind its last slot.
pub const GROUP_PADDING: usize = 16;

/// The bytes that the baseline is taken to keep with each entry for its
/// hash.
pub const HASH_BYTES: usize = 8;

/// The most entries for which the bytes of both tables fit in a `usize`.
pub const MAX_ESTIMATED_ENTRIES: usize = usize::MAX / 32;

/// `a / b`, rounded up.
pub open spec fn ceil_div(a: nat, b: nat) -> nat {
    ((a + b - 1) / (b as int)) as nat
}

/// The slots of a Swiss table that holds `n` entries at a load of 7 in 8.
pub open spec fn swiss_slots(n: nat) -> nat {
    ceil_div(8 * n, 7)
}

/// The bytes of such a table: a control byte and an entry for each slot, and
/// the padding.
pub open spec fn swiss_bytes(n: nat) -> nat {
    (swiss_slots(n) + GROUP_PADDING + swiss_slots(n) * ENTRY_BYTES) as nat
}

/// The slots of a baseline table that holds `n` entries at a load of 9 in
/// 10.
pub open spec fn std_slots(n: nat) -> nat {
    ceil_div(10 * n, 9)
}

/// The bytes of such a table: an entry and its hash for each slot.
pub open spec fn std_bytes(n: nat) -> nat {
    (std_slots(n) * (ENTRY_BYTES + HASH_BYTES)) as nat
}

/// The estimated bytes of both tables for `n` entries.
pub struct MemoryEstimate {
    /// The number of entries.
    pub entries: usize,
    /// The bytes of the Swiss table.
    pub hb_bytes: usize,
    /// The bytes of the baseline table.
    pub std_bytes: usize,
}

/// Whether the Swiss table needs fewer bytes for an entry. Without entries
/// neither cost is a number, and the answer is no.
pub open spec fn swiss_is_smaller(n: nat) -> bool {
    n > 0 && swiss_bytes(n) < std_bytes(n)
}

/// By how many percent of the baseline's bytes the two tables differ,
/// rounded to a whole number.
pub open spec fn difference_percent(n: nat) -> Quotient {
    if n == 0 {
        Quotient::Undefined
    } else if swiss_bytes(n) < std_bytes(n) {
        quotient_of(((std_bytes(n) - swiss_bytes(n)) * 100) as nat, std_bytes(n), 1)
    } else {
        quotient_of(((swiss_bytes(n) - std_bytes(n)) * 100) as nat, std_bytes(n), 1)
    }
}

/// The line of the memory estimate: the bytes for an entry in each table
/// with one decimal, and by how many percent the Swiss table is smaller or
/// larger.
pub open spec fn memory_line_text(n: nat) -> Seq<char> {
    "  Memory:      hb    "@ + right_aligned(
        quotient_text(quotient_of(swiss_bytes(n), n, 10), 1),
        6,
    ) + " B/entry   std "@ + right_aligned(quotient_text(quotient_of(std_bytes(n), n, 10), 1), 6)
        + " B/entry   "@ + quotient_text(difference_percent(n), 0) + (if swiss_is_smaller(n) {
        "% smaller"@
    } else {
        "% larger"@
    })
}

/// The estimated bytes of both tables for `n` entries.
pub fn estimate_memory(n: usize) -> (e: MemoryEstimate)
    requires
        n <= MAX_ESTIMATED_ENTRIES,
    ensures
        e.entries == n,
        e.hb_bytes == swiss_bytes(n as nat),
        e.std_bytes == std_bytes(n as nat),
{
    let hb_capacity: usize = (8 * n + 6) / 7;
    let hb_ctrl_size: usize = hb_capacity + GROUP_PADDING;
    let hb_mem: usize = hb_ctrl_size + hb_capacity * ENTRY_BYTES;
    let std_capacity: usize = (10 * n + 8) / 9;
    let std_entry_size: usize = ENTRY_BYTES + HASH_BYTES;
    let std_mem: usize = std_capacity * std_entry_size;
    MemoryEstimate { entries: n, hb_bytes: hb_mem, std_bytes: std_mem }
}

/// The line of the memory estimate for `n` entries.
pub fn bench_memory_usage(n: usize) -> (line: String)
    requires
        n <= MAX_ESTIMATED_ENTRIES,
    ensures
        line@ == memory_line_text(n as nat),
{
    let e = estimate_memory(n);
    let hb: u128 = e.hb_bytes as u128;
    let std: u128 = e.std_bytes as u128;
    let smaller = n > 0 && hb < std;
    let percent = if n == 0 {
        Quotient::Undefined
    } else if hb < std {
        quotient((std - hb) * 100, std, 1)
    } else {
        quotient((hb - std) * 100, std, 1)
    };
    let mut line = String::new();
    line.append("  Memory:      hb    ");
    push_quotient_column(&mut line, quotient(hb, n as u128, 10), 1, 6);
    line.append(" B/entry   std ");
    push_quotient_column(&mut line, quotient(std, n as u128, 10), 1, 6);
    line.append(" B/entry   ");
    push_quotient(&mut line, percent, 0);
    if smaller {
        line.append("% smaller");
    } else {
        line.append("% larger");
    }
    assert(line@ =~= memory_line_text(n as nat));
    line
}

} // verus!
