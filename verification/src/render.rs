//! The pure computations behind the dashboard panels.
//!
//! Every function here is a function of one progress snapshot (or of plain
//! values taken from one): proportional bar fill, label truncation, the
//! throughput sparkline's cell heights, the region map's row wrapping, and
//! elapsed/remaining time formatting. Drawing the results on a terminal is
//! the surrounding program's job.

use vstd::prelude::*;
use vstd::arithmetic::div_mod::{
    lemma_div_is_ordered, lemma_div_multiples_vanish, lemma_fundamental_div_mod_converse_div,
    lemma_multiply_divide_lt,
};
use vstd::arithmetic::mul::lemma_mul_inequality;
use crate::naming::{decimal_string, spec_decimal};
use crate::progress::Outcome;
use crate::region::RegionState;

verus! {

/// How many of `width` bar cells are filled: `completed * width / total`,
/// clamped to `width`, and 0 for an empty run.
pub open spec fn spec_filled_cells(completed: usize, total: usize, width: usize) -> usize {
    if total == 0 {
        0
    } else if completed as int * width / (total as int) <= width {
        (completed as int * width / (total as int)) as usize
    } else {
        width
    }
}

/// The progress bar's cells: `filled` full cells, then empty cells up to
/// `width`.
pub open spec fn spec_bar(filled: nat, width: nat) -> Seq<char> {
    Seq::new(width, |i: int| if i < filled { '█' } else { '░' })
}

/// The number of filled progress-bar cells for `completed` of `total` units
/// over a bar of `width` cells. When `completed <= total` this is exactly
/// `floor(completed * width / total)`; the clamp to `width` never engages.
pub fn filled_cells(completed: usize, total: usize, width: usize) -> (r: usize)
    ensures
        r == spec_filled_cells(completed, total, width),
        r <= width,
        completed <= total && total > 0 ==> r == completed as int * width / (total as int),
{
    if total == 0 {
        0
    } else {
        proof {
            assert(completed as nat * width as nat <= u128::MAX) by (nonlinear_arith)
                requires completed <= u64::MAX, width <= u64::MAX;
            if completed <= total && width > 0 {
                lemma_mul_inequality(completed as int, total as int, width as int);
                lemma_div_is_ordered(
                    (completed as nat * width) as int,
                    (total as nat * width) as int,
                    total as int,
                );
                lemma_div_multiples_vanish(width as int, total as int);
            }
        }
        let wide: u128 = (completed as u128) * (width as u128) / (total as u128);
        if wide <= width as u128 {
            #[verifier::truncate]
            let r = wide as usize;
            r
        } else {
            width
        }
    }
}

/// Builds the proportional progress bar: `filled` full-block cells then
/// light-shade cells, `width` cells in all.
pub fn progress_bar(filled: usize, width: usize) -> (r: String)
    requires
        filled <= width,
    ensures
        r@ == spec_bar(filled as nat, width as nat),
{
    let mut s = String::new();
    let mut i: usize = 0;
    while i < width
        invariant
            i <= width,
            filled <= width,
            s@ =~= spec_bar(filled as nat, width as nat).take(i as int),
        decreases width - i,
    {
        proof {
            reveal_strlit("█");
            reveal_strlit("░");
        }
        if i < filled {
            s.append("█");
        } else {
            s.append("░");
        }
        i = i + 1;
        proof {
            assert(s@ =~= spec_bar(filled as nat, width as nat).take(i as int));
        }
    }
    proof {
        assert(s@ =~= spec_bar(filled as nat, width as nat));
    }
    s
}

/// A label truncated for a narrow panel: unchanged while it fits in `max`
/// characters, otherwise its first `keep` characters followed by `...`.
pub fn truncate_label(label: &str, max: usize, keep: usize) -> (r: String)
    requires
        keep <= max,
    ensures
        label@.len() <= max ==> r@ == label@,
        label@.len() > max ==> r@ == label@.subrange(0, keep as int) + "..."@,
{
    let len = label.unicode_len();
    if len <= max {
        String::from_str(label)
    } else {
        let head = label.substring_char(0, keep);
        let mut s = String::from_str(head);
        s.append("...");
        s
    }
}

/// The sparkline cell at `row` (0 = bottom) of a column for `value`, scaled
/// so the column's full `height` corresponds to `max`: the column as a whole
/// stands `value * 8 * height / max` eighth-blocks tall (saturated at a full
/// column), and each cell shows however many of those eighths fall in it,
/// 0 through 8.
pub open spec fn spec_cell_eighths(value: u64, max: u64, height: usize, row: usize) -> u8 {
    let e = value as int * 8 * height / (max as int);
    let e = if e <= 8 * height { e } else { 8 * height as int };
    if e <= row as int * 8 {
        0
    } else if e - row as int * 8 >= 8 {
        8
    } else {
        (e - row as int * 8) as u8
    }
}

/// Computes `spec_cell_eighths` executably. The height bound keeps the
/// scaling product inside 128-bit arithmetic.
pub fn cell_eighths(value: u64, max: u64, height: usize, row: usize) -> (r: u8)
    requires
        max > 0,
        0 < height <= 0xffff,
        row < height,
    ensures
        r == spec_cell_eighths(value, max, height, row),
        r <= 8,
{
    proof {
        assert(value as nat * 8 * height <= u128::MAX) by (nonlinear_arith)
            requires value <= u64::MAX, height <= 0xffff;
    }
    let wide: u128 = (value as u128) * 8 * (height as u128) / (max as u128);
    let cap: u128 = 8 * (height as u128);
    let e: u128 = if wide <= cap {
        wide
    } else {
        cap
    };
    let base: u128 = (row as u128) * 8;
    if e <= base {
        0
    } else if e - base >= 8 {
        8
    } else {
        #[verifier::truncate]
        let r = (e - base) as u8;
        r
    }
}

/// The last `n` entries of the rate history (all of it when it is shorter),
/// oldest first — the window that fits the panel, most recent rightmost.
pub fn tail_window(points: &Vec<u64>, n: usize) -> (r: Vec<u64>)
    ensures
        r@ == points@.subrange(
            points@.len() - (if n <= points@.len() { n as nat } else { points@.len() }),
            points@.len() as int,
        ),
{
    let len = points.len();
    let start = if n <= len {
        len - n
    } else {
        0
    };
    let mut r: Vec<u64> = Vec::new();
    let mut i = start;
    while i < len
        invariant
            start <= i <= len,
            len == points@.len(),
            r@ =~= points@.subrange(start as int, i as int),
        decreases len - i,
    {
        r.push(points[i]);
        i = i + 1;
        proof {
            assert(r@ =~= points@.subrange(start as int, i as int));
        }
    }
    proof {
        assert(r@ =~= points@.subrange(
            points@.len() - (if n <= points@.len() { n as nat } else { points@.len() }),
            points@.len() as int,
        ));
    }
    r
}

/// The largest entry of `points`, 0 when there are none — the peak rate that
/// the sparkline is scaled against.
pub fn max_of(points: &Vec<u64>) -> (r: u64)
    ensures
        forall|i: int| 0 <= i < points@.len() ==> points@[i] <= r,
        points@.len() > 0 ==> points@.contains(r),
        points@.len() == 0 ==> r == 0,
{
    let mut r: u64 = 0;
    let mut i: usize = 0;
    while i < points.len()
        invariant
            i <= points@.len(),
            forall|j: int| 0 <= j < i ==> points@[j] <= r,
            i > 0 ==> points@.contains(r),
            i == 0 ==> r == 0,
        decreases points@.len() - i,
    {
        if points[i] > r || i == 0 {
            r = points[i];
        }
        i = i + 1;
    }
    r
}

/// Wraps the region map into rows of `per_row` buckets for display: each row
/// is the corresponding slice of the map, and the row count is exactly
/// `ceil(len / per_row)`.
pub fn region_rows(states: &Vec<RegionState>, per_row: usize) -> (r: Vec<Vec<RegionState>>)
    requires
        per_row >= 1,
    ensures
        r@.len() == (states@.len() + per_row - 1) / (per_row as int),
        forall|k: int|
            0 <= k < r@.len() ==> #[trigger] r@[k]@ == states@.subrange(
                k * per_row,
                if (k + 1) * per_row <= states@.len() {
                    (k + 1) * per_row
                } else {
                    states@.len() as int
                },
            ),
{
    let len = states.len();
    let mut rows: Vec<Vec<RegionState>> = Vec::new();
    let mut start: usize = 0;
    let ghost mut k: int = 0;
    while start < len
        invariant
            per_row >= 1,
            len == states@.len(),
            k == rows@.len(),
            start == if k * per_row <= len { k * per_row } else { len as int },
            k >= 1 ==> (k - 1) * per_row < len,
            forall|q: int|
                0 <= q < k ==> #[trigger] rows@[q]@ == states@.subrange(
                    q * per_row,
                    if (q + 1) * per_row <= len { (q + 1) * per_row } else { len as int },
                ),
        decreases len - start,
    {
        proof {
            assert(start == k * per_row);
            assert((k + 1) * per_row == k * per_row + per_row) by (nonlinear_arith);
        }
        let end = if len - start >= per_row {
            start + per_row
        } else {
            len
        };
        let mut row: Vec<RegionState> = Vec::new();
        let mut j = start;
        while j < end
            invariant
                start <= j <= end <= len,
                len == states@.len(),
                row@ =~= states@.subrange(start as int, j as int),
            decreases end - j,
        {
            row.push(states[j]);
            j = j + 1;
            proof {
                assert(row@ =~= states@.subrange(start as int, j as int));
            }
        }
        rows.push(row);
        if len - start >= per_row {
            start = start + per_row;
        } else {
            start = len;
        }
        proof {
            k = k + 1;
        }
    }
    proof {
        if k == 0 {
            assert(len == 0);
            assert((states@.len() + per_row - 1) / (per_row as int) == 0) by {
                lemma_multiply_divide_lt(per_row - 1, per_row as int, 1);
            }
        } else {
            assert(k * per_row >= len);
            lemma_row_count(len as nat, per_row as nat, k as nat);
        }
    }
    rows
}

/// For `per_row >= 1`, a `k` with `(k-1)*per_row < len <= k*per_row` is
/// exactly `ceil(len / per_row)`.
proof fn lemma_row_count(len: nat, per_row: nat, k: nat)
    requires
        per_row >= 1,
        k >= 1,
        (k - 1) * per_row < len,
        k * per_row >= len,
    ensures
        k as int == (len + per_row - 1) / (per_row as int),
{
    let x = len + per_row - 1;
    let r = x - k * per_row;
    assert(r < per_row) by (nonlinear_arith)
        requires x == len + per_row - 1, r == x - k * per_row, k * per_row >= len, per_row >= 1;
    assert(r >= 0) by (nonlinear_arith)
        requires x == len + per_row - 1, r == x - k * per_row, (k - 1) * per_row < len,
            per_row >= 1;
    assert(x == k * per_row + r);
    lemma_fundamental_div_mod_converse_div(x as int, per_row as int, k as int, r as int);
}

/// `MmSs` text for a duration of `secs` seconds: minutes, `m`, leftover
/// seconds, `s`.
pub open spec fn spec_duration_text(secs: u64) -> Seq<char> {
    spec_decimal(secs as nat / 60) + seq!['m'] + spec_decimal(secs as nat % 60) + seq!['s']
}

/// Formats a duration as minutes and seconds, `MmSs`.
pub fn duration_text(secs: u64) -> (r: String)
    ensures
        r@ == spec_duration_text(secs),
{
    proof {
        reveal_strlit("m");
        reveal_strlit("s");
    }
    let mut s = decimal_string(secs / 60);
    s.append("m");
    let rest = decimal_string(secs % 60);
    s.append(rest.as_str());
    s.append("s");
    proof {
        assert(s@ =~= spec_duration_text(secs));
    }
    s
}

/// The icon shown beside an activity-log entry.
pub open spec fn spec_outcome_icon(o: Outcome) -> Seq<char> {
    if o is Success {
        "✓ "@
    } else {
        "✗ "@
    }
}

/// The icon shown beside an activity-log entry: a check for a success, a
/// cross for a failure.
pub fn outcome_icon(o: Outcome) -> (r: &'static str)
    ensures
        r@ == spec_outcome_icon(o),
{
    match o {
        Outcome::Success => "✓ ",
        Outcome::Failed => "✗ ",
    }
}

/// Whole mebibytes of `bytes`, rounded down — the unit the stats panel
/// displays byte counts in.
pub fn whole_mib(bytes: u64) -> (r: u64)
    ensures
        r == bytes / 0x100000,
{
    bytes / 0x100000
}

} // verus!
