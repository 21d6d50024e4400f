//! The bit layout of packed cells: fixed-width fields laid out from bit 0 upward.

use vstd::prelude::*;
use vstd::arithmetic::div_mod::{
    lemma_div_is_ordered, lemma_fundamental_div_mod, lemma_fundamental_div_mod_converse,
    lemma_mod_bound,
};
use vstd::arithmetic::power2::{lemma2_to64, lemma2_to64_rest, lemma_pow2_strictly_increases, pow2};
use vstd::bits::{lemma_u64_pow2_no_overflow, lemma_u64_shl_is_mul};

verus! {

/// Number of bits in one storage cell.
pub const BITS_IN_U64: usize = 64;

/// The cell whose lowest `bits` bits are set, and no others.
pub open spec fn low_mask(bits: u64) -> u64 {
    if bits >= 64 {
        0xffff_ffff_ffff_ffffu64
    } else {
        ((1u64 << bits) - 1) as u64
    }
}

/// The largest value that fits in `width` bits: `2^width - 1`, and all ones at 64 bits.
pub open spec fn max_for_width(width: nat) -> u64 {
    if width >= 64 {
        u64::MAX
    } else {
        (pow2(width) - 1) as u64
    }
}

/// How many `width`-bit items one cell holds. The remainder bits of a cell stay unused.
pub open spec fn items_per_cell(width: nat) -> nat {
    if width == 0 {
        0
    } else {
        64nat / width
    }
}

/// How many cells `len` items of `width` bits occupy: `len / items_per_cell`, rounded up.
pub open spec fn cell_count(len: nat, width: nat) -> nat {
    let per = items_per_cell(width);
    if per == 0 || len == 0 {
        0
    } else {
        ((len - 1) / (per as int) + 1) as nat
    }
}

/// The item stored in field `k` of `cell`.
pub open spec fn field(cell: u64, k: nat, width: nat) -> u64 {
    (cell >> ((k * width) as u64)) & max_for_width(width)
}

/// The bits of `cell` above its last field.
pub open spec fn spare(cell: u64, width: nat) -> u64 {
    let used = items_per_cell(width) * width;
    if used >= 64 {
        0
    } else {
        cell >> (used as u64)
    }
}

/// `cell` with field `k` replaced by `value`.
pub open spec fn with_field(cell: u64, k: nat, width: nat, value: u64) -> u64 {
    let shift = (k * width) as u64;
    (!(max_for_width(width) << shift) & cell) | (value << shift)
}

/// Item `i` as read from `cells`.
pub open spec fn item_at(cells: Seq<u64>, i: int, width: nat) -> u64 {
    field(
        cells[i / (items_per_cell(width) as int)],
        (i % (items_per_cell(width) as int)) as nat,
        width,
    )
}

/// The first `len` items stored in `cells`, in index order.
pub open spec fn items(cells: Seq<u64>, len: nat, width: nat) -> Seq<u64> {
    Seq::new(len, |i: int| item_at(cells, i, width))
}

/// `cells` hold `len` items of `width` bits and nothing else: there are as many cells as the
/// items need, and every field past the last item and every spare bit is zero.
pub open spec fn well_packed(cells: Seq<u64>, len: nat, width: nat) -> bool {
    &&& 1 <= width <= 64
    &&& cells.len() == cell_count(len, width)
    &&& forall|c: int, k: nat|
        0 <= c < cells.len() && k < items_per_cell(width) && c * items_per_cell(width) + k >= len
            ==> #[trigger] field(cells[c], k, width) == 0
    &&& forall|c: int| 0 <= c < cells.len() ==> #[trigger] spare(cells[c], width) == 0
}

/// The cell that holds the `count` items of `values` from `base` on, the first in the lowest
/// bits; an item past the end of `values` counts as zero.
pub open spec fn pack_cell(values: Seq<u64>, width: nat, base: int, count: nat) -> u64
    decreases count,
{
    if count == 0 {
        0
    } else {
        let k = (count - 1) as nat;
        let item = if 0 <= base + k < values.len() {
            values[base + k]
        } else {
            0
        };
        pack_cell(values, width, base, k) | (item << ((k * width) as u64))
    }
}

/// The cells that hold `values` at `width` bits each: item `i` lies in cell
/// `i / items_per_cell`, at bit `(i % items_per_cell) * width`.
pub open spec fn packed(values: Seq<u64>, width: nat) -> Seq<u64> {
    Seq::new(
        cell_count(values.len(), width),
        |c: int| pack_cell(values, width, c * items_per_cell(width), items_per_cell(width)),
    )
}

/// The cells after item `index` is overwritten with `value`.
pub open spec fn cells_after_set(cells: Seq<u64>, width: nat, index: int, value: u64) -> Seq<u64> {
    let c = index / (items_per_cell(width) as int);
    let k = (index % (items_per_cell(width) as int)) as nat;
    cells.update(c, with_field(cells[c], k, width, value))
}

/// The cells after `value` is appended to `len` items: a zero cell is added when the new
/// item starts one.
pub open spec fn cells_after_push(cells: Seq<u64>, len: nat, width: nat, value: u64) -> Seq<u64> {
    let c = (len as int) / (items_per_cell(width) as int);
    let base = if c >= cells.len() {
        cells.push(0)
    } else {
        cells
    };
    cells_after_set(base, width, len as int, value)
}

/// A cell holds at least one item and at most 64, and its fields fit in its 64 bits.
pub proof fn lemma_items_per_cell(width: nat)
    requires
        1 <= width <= 64,
    ensures
        1 <= items_per_cell(width) <= 64,
        items_per_cell(width) * width <= 64,
{
    let per = 64int / (width as int);
    lemma_fundamental_div_mod(64, width as int);
    lemma_mod_bound(64, width as int);
    assert(per >= 1 && per <= 64 && per * width <= 64) by (nonlinear_arith)
        requires
            64 == width * per + 64int % (width as int),
            0 <= 64int % (width as int) < width,
            1 <= width <= 64,
    ;
}

/// Field `k` of a cell ends at or below bit 64.
pub proof fn lemma_field_fits(k: nat, width: nat)
    requires
        1 <= width <= 64,
        k < items_per_cell(width),
    ensures
        k * width + width <= items_per_cell(width) * width <= 64,
{
    lemma_items_per_cell(width);
    let per = items_per_cell(width);
    assert(k * width + width <= per * width) by (nonlinear_arith)
        requires
            k + 1 <= per,
    ;
}

/// Two different fields of a cell do not overlap.
proof fn lemma_fields_apart(j: nat, k: nat, width: nat)
    requires
        j != k,
    ensures
        j * width + width <= k * width || k * width + width <= j * width,
{
    assert(j * width + width <= k * width || k * width + width <= j * width)
        by (nonlinear_arith)
        requires
            j != k,
    ;
}

/// Item `i` of `len` lies in one of the `cell_count` cells, in one of its fields.
pub proof fn lemma_index_in_cells(i: nat, len: nat, width: nat)
    requires
        1 <= width <= 64,
        i < len,
    ensures
        0 <= (i as int) / (items_per_cell(width) as int) < cell_count(len, width),
        0 <= (i as int) % (items_per_cell(width) as int) < items_per_cell(width),
        i == ((i as int) / (items_per_cell(width) as int)) * items_per_cell(width) + (i as int) % (
        items_per_cell(width) as int),
{
    lemma_items_per_cell(width);
    let per = items_per_cell(width) as int;
    lemma_div_is_ordered(i as int, len - 1, per);
    lemma_fundamental_div_mod(i as int, per);
    lemma_mod_bound(i as int, per);
    assert(0 <= (i as int) / per) by (nonlinear_arith)
        requires
            i >= 0,
            per > 0,
    ;
    assert(per * ((i as int) / per) == ((i as int) / per) * per) by (nonlinear_arith);
}

/// Field `k` of cell `c` holds item `c * items_per_cell + k`, and no other field does.
pub proof fn lemma_cell_and_field(c: nat, k: nat, width: nat)
    requires
        1 <= width <= 64,
        k < items_per_cell(width),
    ensures
        (c * items_per_cell(width) + k) as int / (items_per_cell(width) as int) == c,
        (c * items_per_cell(width) + k) as int % (items_per_cell(width) as int) == k,
{
    lemma_items_per_cell(width);
    let per = items_per_cell(width) as int;
    assert(c * per + k == per * c + k) by (nonlinear_arith);
    lemma_fundamental_div_mod_converse(c * per + k, per, c as int, k as int);
}

/// One more item needs the cell of its index, and none beyond it.
pub proof fn lemma_cell_count_next(len: nat, width: nat)
    requires
        1 <= width <= 64,
    ensures
        cell_count(len + 1, width) == (len as int) / (items_per_cell(width) as int) + 1,
        cell_count(len, width) == if (len as int) % (items_per_cell(width) as int) == 0 {
            (len as int) / (items_per_cell(width) as int)
        } else {
            (len as int) / (items_per_cell(width) as int) + 1
        },
{
    lemma_items_per_cell(width);
    let per = items_per_cell(width) as int;
    let q = (len as int) / per;
    let r = (len as int) % per;
    lemma_fundamental_div_mod(len as int, per);
    lemma_mod_bound(len as int, per);
    assert(0 <= q) by (nonlinear_arith)
        requires
            len >= 0,
            per > 0,
            q == (len as int) / per,
    ;
    if len > 0 {
        if r == 0 {
            assert(q >= 1) by (nonlinear_arith)
                requires
                    len == per * q,
                    len > 0,
                    per > 0,
                    q >= 0,
            ;
            assert(len - 1 == per * (q - 1) + (per - 1)) by (nonlinear_arith)
                requires
                    len == per * q,
            ;
            lemma_fundamental_div_mod_converse(len - 1, per, q - 1, per - 1);
        } else {
            lemma_fundamental_div_mod_converse(len - 1, per, q, r - 1);
        }
    }
}

/// The largest value of a width is the mask of its low bits, and below 64 bits it is one less
/// than `1 << width`.
pub proof fn lemma_max_for_width(width: nat)
    requires
        width <= 64,
    ensures
        max_for_width(width) == low_mask(width as u64),
        max_for_width(width) == pow2(width) - 1,
        width < 64 ==> (1u64 << (width as u64)) == pow2(width) && pow2(width) <= u64::MAX,
        width >= 1 ==> max_for_width(width) >= 1,
{
    lemma2_to64();
    lemma2_to64_rest();
    if width < 64 {
        lemma_u64_pow2_no_overflow(width);
        lemma_u64_shl_is_mul(1, width as u64);
        if width >= 1 {
            lemma_pow2_strictly_increases(0, width);
        }
    }
}

/// What is read from a field is at most the mask.
proof fn lemma_masked_le(x: u64, m: u64)
    by (bit_vector)
    ensures
        x & m <= m,
{
}

/// Every field of the zero cell is zero, and so are its spare bits.
proof fn lemma_zero_shifted(shift: u64, m: u64)
    by (bit_vector)
    ensures
        (0u64 >> shift) & m == 0,
        0u64 >> shift == 0,
{
}

/// The low bits of a cell up to the end of a field are its low bits up to the start of that
/// field, together with the field.
proof fn lemma_low_bits_grow(cell: u64, width: u64, shift: u64)
    by (bit_vector)
    requires
        1 <= width <= 64,
        shift + width <= 64,
    ensures
        (cell & low_mask(shift)) | (((cell >> shift) & low_mask(width)) << shift) == cell
            & low_mask((shift + width) as u64),
        cell & low_mask(0) == 0,
{
}

/// A cell with no bit set at or above `used` is made of its low `used` bits.
proof fn lemma_low_bits_all(cell: u64, used: u64)
    by (bit_vector)
    requires
        used >= 64 || cell >> used == 0,
    ensures
        cell & low_mask(used) == cell,
{
}

/// After a field is written, it reads back as the value written.
proof fn lemma_write_reads_back(cell: u64, value: u64, width: u64, shift: u64)
    by (bit_vector)
    requires
        1 <= width <= 64,
        shift + width <= 64,
        value <= low_mask(width),
    ensures
        ({
            let m = low_mask(width);
            (((!(m << shift) & cell) | (value << shift)) >> shift) & m == value
        }),
{
}

/// Writing a field leaves every field that does not overlap it as it was.
proof fn lemma_write_keeps_others(cell: u64, value: u64, width: u64, shift: u64, other: u64)
    by (bit_vector)
    requires
        1 <= width <= 64,
        shift + width <= 64,
        other + width <= 64,
        shift + width <= other || other + width <= shift,
        value <= low_mask(width),
    ensures
        ({
            let m = low_mask(width);
            (((!(m << shift) & cell) | (value << shift)) >> other) & m == (cell >> other) & m
        }),
{
}

/// Writing a field leaves the bits above the last field as they were.
proof fn lemma_write_keeps_spare(cell: u64, value: u64, width: u64, shift: u64, used: u64)
    by (bit_vector)
    requires
        1 <= width <= 64,
        shift + width <= used,
        used < 64,
        value <= low_mask(width),
    ensures
        ({
            let m = low_mask(width);
            ((!(m << shift) & cell) | (value << shift)) >> used == cell >> used
        }),
{
}

/// Every field of the zero cell reads zero, and it has no spare bits set.
pub proof fn lemma_zero_cell(width: nat)
    ensures
        spare(0, width) == 0,
        forall|k: nat| #[trigger] field(0, k, width) == 0,
{
    lemma_zero_shifted((items_per_cell(width) * width) as u64, 0);
    assert forall|k: nat| #[trigger] field(0, k, width) == 0 by {
        lemma_zero_shifted((k * width) as u64, max_for_width(width));
    }
}

/// What a field holds fits its width.
pub proof fn lemma_field_bounded(cell: u64, k: nat, width: nat)
    ensures
        field(cell, k, width) <= max_for_width(width),
{
    lemma_masked_le(cell >> ((k * width) as u64), max_for_width(width));
}

/// Writing field `k` of a cell stores the value there and changes nothing else.
pub proof fn lemma_with_field(cell: u64, k: nat, width: nat, value: u64)
    requires
        1 <= width <= 64,
        k < items_per_cell(width),
        value <= max_for_width(width),
    ensures
        field(with_field(cell, k, width, value), k, width) == value,
        forall|j: nat|
            j < items_per_cell(width) && j != k ==> #[trigger] field(
                with_field(cell, k, width, value),
                j,
                width,
            ) == field(cell, j, width),
        spare(with_field(cell, k, width, value), width) == spare(cell, width),
{
    lemma_field_fits(k, width);
    let w = width as u64;
    let shift = (k * width) as u64;
    let used = items_per_cell(width) * width;
    lemma_max_for_width(width);
    lemma_write_reads_back(cell, value, w, shift);
    assert forall|j: nat| j < items_per_cell(width) && j != k implies #[trigger] field(
        with_field(cell, k, width, value),
        j,
        width,
    ) == field(cell, j, width) by {
        lemma_field_fits(j, width);
        lemma_fields_apart(j, k, width);
        lemma_write_keeps_others(cell, value, w, shift, (j * width) as u64);
    }
    if used < 64 {
        lemma_write_keeps_spare(cell, value, w, shift, used as u64);
    }
}

/// The first `count` fields of a well-packed cell, put together, are its low bits.
proof fn lemma_pack_cell_low_bits(cells: Seq<u64>, len: nat, width: nat, c: int, count: nat)
    requires
        well_packed(cells, len, width),
        0 <= c < cells.len(),
        count <= items_per_cell(width),
    ensures
        count * width <= 64,
        pack_cell(items(cells, len, width), width, c * items_per_cell(width), count) == cells[c]
            & low_mask((count * width) as u64),
    decreases count,
{
    let per = items_per_cell(width);
    let values = items(cells, len, width);
    lemma_items_per_cell(width);
    lemma_max_for_width(width);
    if count == 0 {
        lemma_low_bits_grow(cells[c], width as u64, 0);
    } else {
        let k = (count - 1) as nat;
        lemma_pack_cell_low_bits(cells, len, width, c, k);
        lemma_field_fits(k, width);
        lemma_cell_and_field(c as nat, k, width);
        let i = c * per + k;
        let item = if 0 <= i < values.len() {
            values[i]
        } else {
            0
        };
        assert(item == field(cells[c], k, width));
        assert(count * width == k * width + width) by (nonlinear_arith)
            requires
                count == k + 1,
        ;
        lemma_low_bits_grow(cells[c], width as u64, (k * width) as u64);
    }
}

/// Well-packed cells are determined by the items they hold.
pub proof fn lemma_well_packed_is_packed(cells: Seq<u64>, len: nat, width: nat)
    requires
        well_packed(cells, len, width),
    ensures
        cells == packed(items(cells, len, width), width),
{
    let per = items_per_cell(width);
    let values = items(cells, len, width);
    lemma_items_per_cell(width);
    assert forall|c: int| 0 <= c < cells.len() implies cells[c] == pack_cell(
        values,
        width,
        c * per,
        per,
    ) by {
        lemma_pack_cell_low_bits(cells, len, width, c, per);
        assert(spare(cells[c], width) == 0);
        lemma_low_bits_all(cells[c], (per * width) as u64);
    }
}

/// A cell whose first `count` fields hold `value`, and which is zero above them.
pub open spec fn is_repeated(cell: u64, width: nat, value: u64, count: nat) -> bool {
    &&& forall|k: nat| k < count ==> #[trigger] field(cell, k, width) == value
    &&& forall|k: nat| count <= k < items_per_cell(width) ==> #[trigger] field(cell, k, width) == 0
    &&& spare(cell, width) == 0
}

/// Cells that repeat one value are the packing of that many copies of it: full cells as
/// far as they go, then one cell with the copies that are left.
pub proof fn lemma_filled_cells(cells: Seq<u64>, len: nat, width: nat, value: u64)
    requires
        1 <= width <= 64,
        cells.len() == cell_count(len, width),
        forall|c: int|
            0 <= c < (len as int) / (items_per_cell(width) as int) ==> is_repeated(
                #[trigger] cells[c],
                width,
                value,
                items_per_cell(width),
            ),
        (len as int) % (items_per_cell(width) as int) != 0 ==> is_repeated(
            cells[(len as int) / (items_per_cell(width) as int)],
            width,
            value,
            ((len as int) % (items_per_cell(width) as int)) as nat,
        ),
    ensures
        well_packed(cells, len, width),
        items(cells, len, width) == Seq::new(len, |i: int| value),
{
    let per = items_per_cell(width) as int;
    let full = (len as int) / per;
    let rest = (len as int) % per;
    lemma_items_per_cell(width);
    lemma_cell_count_next(len, width);
    lemma_fundamental_div_mod(len as int, per);
    assert forall|c: int, k: nat|
        0 <= c < cells.len() && k < items_per_cell(width) && c * items_per_cell(width) + k
            >= len implies #[trigger] field(cells[c], k, width) == 0 by {
        if c < full {
            assert(c * per + k < len) by (nonlinear_arith)
                requires
                    0 <= c < full,
                    0 <= k < per,
                    len == per * full + rest,
                    0 <= rest,
            ;
        } else {
            assert(c * per == per * full) by (nonlinear_arith)
                requires
                    c == full,
            ;
        }
    }
    assert forall|i: int| 0 <= i < len implies item_at(cells, i, width) == value by {
        lemma_index_in_cells(i as nat, len, width);
        let c = i / per;
        let k = (i % per) as nat;
        if c >= full {
            assert(c == full && k < rest) by (nonlinear_arith)
                requires
                    c >= full,
                    i == c * per + k,
                    i < len,
                    len == per * full + rest,
                    0 <= k < per,
                    0 <= rest < per,
            ;
        }
    }
}

/// Overwriting an item changes that item and nothing else, and keeps the cells well packed.
pub proof fn lemma_set_item(cells: Seq<u64>, len: nat, width: nat, index: nat, value: u64)
    requires
        well_packed(cells, len, width),
        index < len,
        value <= max_for_width(width),
    ensures
        well_packed(cells_after_set(cells, width, index as int, value), len, width),
        items(cells_after_set(cells, width, index as int, value), len, width) == items(
            cells,
            len,
            width,
        ).update(index as int, value),
{
    let per = items_per_cell(width) as int;
    let c0 = (index as int) / per;
    let k0 = ((index as int) % per) as nat;
    let after = cells_after_set(cells, width, index as int, value);
    lemma_index_in_cells(index, len, width);
    lemma_with_field(cells[c0], k0, width, value);
    assert forall|i: int| 0 <= i < len implies item_at(after, i, width) == if i == index {
        value
    } else {
        item_at(cells, i, width)
    } by {
        lemma_index_in_cells(i as nat, len, width);
    }
}

/// Appending an item keeps the items before it, and keeps the cells well packed.
pub proof fn lemma_push_item(cells: Seq<u64>, len: nat, width: nat, value: u64)
    requires
        well_packed(cells, len, width),
        value <= max_for_width(width),
    ensures
        well_packed(cells_after_push(cells, len, width, value), len + 1, width),
        items(cells_after_push(cells, len, width, value), len + 1, width) == items(
            cells,
            len,
            width,
        ).push(value),
{
    let per = items_per_cell(width) as int;
    let c0 = (len as int) / per;
    let k0 = ((len as int) % per) as nat;
    let base = if c0 >= cells.len() {
        cells.push(0)
    } else {
        cells
    };
    let after = cells_after_push(cells, len, width, value);
    lemma_cell_count_next(len, width);
    lemma_index_in_cells(len, len + 1, width);
    lemma_zero_cell(width);
    lemma_with_field(base[c0], k0, width, value);
    assert forall|i: int| 0 <= i < len + 1 implies item_at(after, i, width) == if i == len {
        value
    } else {
        item_at(cells, i, width)
    } by {
        if i < len {
            lemma_index_in_cells(i as nat, len, width);
        }
    }
}

} // verus!
