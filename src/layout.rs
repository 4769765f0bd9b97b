use vstd::arithmetic::div_mod::*;
use vstd::prelude::*;

verus! {

/// A rectangle of terminal cells: its top-left corner and its size.
#[derive(Clone, Copy, Debug, PartialEq, Eq, Structural)]
pub struct Rect {
    pub x: u16,
    pub y: u16,
    pub width: u16,
    pub height: u16,
}

impl Rect {
    /// The rectangle lies within the terminal's coordinate range.
    pub open spec fn wf(self) -> bool {
        &&& self.x + self.width <= u16::MAX
        &&& self.y + self.height <= u16::MAX
    }

    pub open spec fn right(self) -> int {
        self.x + self.width
    }

    pub open spec fn bottom(self) -> int {
        self.y + self.height
    }

    /// `inner` lies within `self`.
    pub open spec fn encloses(self, inner: Rect) -> bool {
        &&& self.x <= inner.x
        &&& inner.right() <= self.right()
        &&& self.y <= inner.y
        &&& inner.bottom() <= self.bottom()
    }

    /// The two rectangles share no cell.
    pub open spec fn disjoint(self, other: Rect) -> bool {
        ||| self.right() <= other.x
        ||| other.right() <= self.x
        ||| self.bottom() <= other.y
        ||| other.bottom() <= self.y
    }

    /// The cell at column `px`, row `py` lies in the rectangle.
    pub open spec fn holds_point(self, px: int, py: int) -> bool {
        self.x <= px < self.right() && self.y <= py < self.bottom()
    }
}

/// `percent` percent of `extent`, rounded down.
pub open spec fn percent_of(extent: nat, percent: nat) -> nat {
    extent * percent / 100
}

/// The size of each but the last of `count` even parts of `extent`: each part
/// gets `floor(100 / count)` percent of it.
pub open spec fn unit(extent: nat, count: nat) -> nat {
    percent_of(extent, 100nat / count)
}

/// Where part `i` of `count` even parts of `extent` starts, from the start of
/// the extent.
pub open spec fn part_start(extent: nat, count: nat, i: nat) -> nat {
    i * unit(extent, count)
}

/// The size of part `i` of `count` even parts of `extent`: the last part
/// takes what rounding left over, so that the parts fill the extent.
pub open spec fn part_len(extent: nat, count: nat, i: nat) -> nat {
    if i + 1 < count {
        unit(extent, count)
    } else {
        (extent - (count - 1) * unit(extent, count)) as nat
    }
}

/// `count` parts of one unit each fit in the extent.
pub proof fn lemma_unit_fits(extent: nat, count: nat)
    requires
        count >= 1,
    ensures
        count * unit(extent, count) <= extent,
        unit(extent, count) <= extent,
{
    let p: nat = 100nat / count;
    let u = unit(extent, count);
    lemma_fundamental_div_mod(100, count as int);
    lemma_mod_pos_bound(100, count as int);
    assert(count * p <= 100);
    lemma_fundamental_div_mod((extent * p) as int, 100);
    lemma_mod_pos_bound((extent * p) as int, 100);
    assert(100 * u <= extent * p);
    assert(count * u <= extent) by (nonlinear_arith)
        requires
            count * p <= 100,
            100 * u <= extent * p,
            count >= 1,
    ;
    assert(u <= count * u) by (nonlinear_arith)
        requires
            count >= 1,
    ;
}

/// Parts `i < j` of an extent follow one another: part `i` ends before part
/// `j` starts, and every part ends within the extent.
pub proof fn lemma_parts_ordered(extent: nat, count: nat, i: nat, j: nat)
    requires
        i < j < count,
    ensures
        part_start(extent, count, i) + part_len(extent, count, i) <= part_start(extent, count, j),
        part_start(extent, count, j) + part_len(extent, count, j) <= extent,
{
    let u = unit(extent, count);
    lemma_unit_fits(extent, count);
    assert((i + 1) * u <= j * u) by (nonlinear_arith)
        requires
            i + 1 <= j,
    ;
    assert(i * u + u == (i + 1) * u) by (nonlinear_arith);
    assert(j * u + u <= count * u) by (nonlinear_arith)
        requires
            j + 1 <= count,
    ;
    assert((count - 1) * u + u == count * u) by (nonlinear_arith)
        requires
            count >= 1,
    ;
    if j + 1 == count {
        assert(part_start(extent, count, j) + part_len(extent, count, j) == extent);
    }
}

/// Part `i` of `area` split side by side into `count` even parts.
pub open spec fn column_part(area: Rect, count: nat, i: nat) -> Rect {
    Rect {
        x: (area.x + part_start(area.width as nat, count, i)) as u16,
        y: area.y,
        width: part_len(area.width as nat, count, i) as u16,
        height: area.height,
    }
}

/// Splits `area` side by side into `count` even parts, left to right; the last
/// part takes what rounding left over.
pub fn split_columns(area: Rect, count: usize) -> (r: Vec<Rect>)
    requires
        area.wf(),
        count >= 1,
    ensures
        r@.len() == count,
        forall|i: int|
            0 <= i < count ==> #[trigger] r@[i] == column_part(area, count as nat, i as nat),
{
    let w: u32 = area.width as u32;
    let p: u32 = (100 / count) as u32;
    assert(p <= 100);
    assert(w * p <= 65535 * 100) by (nonlinear_arith)
        requires
            w <= 65535,
            p <= 100,
    ;
    let u: u16 = (w * p / 100) as u16;
    proof {
        lemma_unit_fits(area.width as nat, count as nat);
        assert(u == unit(area.width as nat, count as nat));
    }
    let mut r: Vec<Rect> = Vec::new();
    let mut i: usize = 0;
    let mut x: u16 = area.x;
    while i < count
        invariant
            area.wf(),
            count >= 1,
            u == unit(area.width as nat, count as nat),
            count * u <= area.width,
            i <= count,
            x == area.x + part_start(area.width as nat, count as nat, i as nat),
            r@.len() == i,
            forall|k: int|
                0 <= k < i ==> #[trigger] r@[k] == column_part(area, count as nat, k as nat),
        decreases count - i,
    {
        proof {
            assert(i * u + u == (i + 1) * u) by (nonlinear_arith);
            assert((i + 1) * u <= count * u) by (nonlinear_arith)
                requires
                    i + 1 <= count,
            ;
        }
        let width: u16 = if i + 1 < count {
            u
        } else {
            area.width - (x - area.x)
        };
        r.push(Rect { x, y: area.y, width, height: area.height });
        x = x + u;
        i = i + 1;
    }
    r
}

/// Part `i` of `area` split one above the other into `count` even parts.
pub open spec fn row_part(area: Rect, count: nat, i: nat) -> Rect {
    Rect {
        x: area.x,
        y: (area.y + part_start(area.height as nat, count, i)) as u16,
        width: area.width,
        height: part_len(area.height as nat, count, i) as u16,
    }
}

/// Splits `area` one above the other into `count` even parts, top to bottom;
/// the last part takes what rounding left over.
pub fn split_rows(area: Rect, count: usize) -> (r: Vec<Rect>)
    requires
        area.wf(),
        count >= 1,
    ensures
        r@.len() == count,
        forall|i: int| 0 <= i < count ==> #[trigger] r@[i] == row_part(area, count as nat, i as nat),
{
    let h: u32 = area.height as u32;
    let p: u32 = (100 / count) as u32;
    assert(p <= 100);
    assert(h * p <= 65535 * 100) by (nonlinear_arith)
        requires
            h <= 65535,
            p <= 100,
    ;
    let u: u16 = (h * p / 100) as u16;
    proof {
        lemma_unit_fits(area.height as nat, count as nat);
        assert(u == unit(area.height as nat, count as nat));
    }
    let mut r: Vec<Rect> = Vec::new();
    let mut i: usize = 0;
    let mut y: u16 = area.y;
    while i < count
        invariant
            area.wf(),
            count >= 1,
            u == unit(area.height as nat, count as nat),
            count * u <= area.height,
            i <= count,
            y == area.y + part_start(area.height as nat, count as nat, i as nat),
            r@.len() == i,
            forall|k: int| 0 <= k < i ==> #[trigger] r@[k] == row_part(area, count as nat, k as nat),
        decreases count - i,
    {
        proof {
            assert(i * u + u == (i + 1) * u) by (nonlinear_arith);
            assert((i + 1) * u <= count * u) by (nonlinear_arith)
                requires
                    i + 1 <= count,
            ;
        }
        let height: u16 = if i + 1 < count {
            u
        } else {
            area.height - (y - area.y)
        };
        r.push(Rect { x: area.x, y, width: area.width, height });
        y = y + u;
        i = i + 1;
    }
    r
}

/// The three regions of the screen, top to bottom.
#[derive(Clone, Copy, Debug, PartialEq, Eq, Structural)]
pub struct Regions {
    pub cpu: Rect,
    pub memory: Rect,
    pub processes: Rect,
}

/// Share of the screen's height, in percent, that the CPU region gets.
pub const CPU_PERCENT: u16 = 25;

/// Height of the memory region: four lines of text and a border.
pub const MEMORY_HEIGHT: u16 = 6;

/// Height of the CPU region on a screen of height `h`.
pub open spec fn cpu_height(h: nat) -> nat {
    percent_of(h, CPU_PERCENT as nat)
}

/// Height of the memory region on a screen of height `h`: its fixed height,
/// or what the CPU region left if that is less.
pub open spec fn memory_height(h: nat) -> nat {
    let rest = (h - cpu_height(h)) as nat;
    if rest < MEMORY_HEIGHT { rest } else { MEMORY_HEIGHT as nat }
}

/// The regions of a screen `viewport`: each spans its full width; the CPU
/// region takes a quarter of its height from the top, the memory region comes
/// next, and the process region takes the rest.
pub open spec fn regions_of(viewport: Rect) -> Regions {
    let h = viewport.height as nat;
    let c = cpu_height(h);
    let m = memory_height(h);
    Regions {
        cpu: Rect { x: viewport.x, y: viewport.y, width: viewport.width, height: c as u16 },
        memory: Rect {
            x: viewport.x,
            y: (viewport.y + c) as u16,
            width: viewport.width,
            height: m as u16,
        },
        processes: Rect {
            x: viewport.x,
            y: (viewport.y + c + m) as u16,
            width: viewport.width,
            height: (h - c - m) as u16,
        },
    }
}

/// Splits the screen into its CPU, memory and process regions. A screen too
/// small for all three gives regions of height zero at the bottom.
pub fn partition(viewport: Rect) -> (r: Regions)
    requires
        viewport.wf(),
    ensures
        r == regions_of(viewport),
        r.cpu.wf(),
        r.memory.wf(),
        r.processes.wf(),
{
    let h: u32 = viewport.height as u32;
    proof {
        lemma_multiply_divide_le((h * 25) as int, 100, h as int);
    }
    let c: u16 = (h * (CPU_PERCENT as u32) / 100) as u16;
    let rest: u16 = viewport.height - c;
    let m: u16 = if rest < MEMORY_HEIGHT { rest } else { MEMORY_HEIGHT };
    Regions {
        cpu: Rect { x: viewport.x, y: viewport.y, width: viewport.width, height: c },
        memory: Rect { x: viewport.x, y: viewport.y + c, width: viewport.width, height: m },
        processes: Rect {
            x: viewport.x,
            y: viewport.y + c + m,
            width: viewport.width,
            height: rest - m,
        },
    }
}

/// One cell of the CPU grid: its place, and the number of the core it shows
/// (counting from 1), or `None` for a cell past the last core.
#[derive(Clone, Copy, Debug, PartialEq, Eq, Structural)]
pub struct CoreCell {
    pub area: Rect,
    pub label: Option<usize>,
}

/// Number of cells in each of the two rows of the CPU grid: half the cores,
/// rounded up.
pub open spec fn grid_columns(core_count: nat) -> nat {
    (core_count + 1) / 2
}

/// The place of the cell in row `row` (0 or 1), column `col` of the CPU grid.
pub open spec fn cell_area(region: Rect, core_count: nat, row: nat, col: nat) -> Rect {
    column_part(row_part(region, 2, row), grid_columns(core_count), col)
}

/// The label of the cell at position `index` of the grid, in row-major order.
pub open spec fn cell_label(core_count: nat, index: nat) -> Option<usize> {
    if index < core_count {
        Some((index + 1) as usize)
    } else {
        None
    }
}

/// The cell at row `row`, column `col` of the CPU grid.
pub open spec fn core_cell(region: Rect, core_count: nat, row: nat, col: nat) -> CoreCell {
    CoreCell {
        area: cell_area(region, core_count, row, col),
        label: cell_label(core_count, row * grid_columns(core_count) + col),
    }
}

/// The cells of the CPU grid, row-major.
pub open spec fn grid_cell(cells: Seq<CoreCell>, core_count: nat, row: nat, col: nat) -> CoreCell {
    cells[(row * grid_columns(core_count) + col) as int]
}

/// Splits the CPU region into a grid of two rows of `ceil(core_count / 2)`
/// cells and labels the cells row-major with cores `1..=core_count`; a last
/// cell past the final core is kept, without a label.
pub fn partition_cores(cpu_region: Rect, core_count: usize) -> (r: Vec<CoreCell>)
    requires
        cpu_region.wf(),
        core_count >= 1,
    ensures
        r@.len() == 2 * grid_columns(core_count as nat),
        forall|row: nat, col: nat|
            row < 2 && col < grid_columns(core_count as nat) ==> #[trigger] grid_cell(
                r@,
                core_count as nat,
                row,
                col,
            ) == core_cell(cpu_region, core_count as nat, row, col),
        forall|i: int| 0 <= i < r@.len() ==> #[trigger] r@[i].label == cell_label(core_count as nat, i as nat),
{
    let cols: usize = core_count / 2 + core_count % 2;
    assert(cols == grid_columns(core_count as nat));
    let rows = split_rows(cpu_region, 2);
    let top = split_columns(rows[0], cols);
    let bottom = split_columns(rows[1], cols);
    proof {
        lemma_parts_ordered(cpu_region.height as nat, 2, 0, 1);
    }
    let mut r: Vec<CoreCell> = Vec::new();
    let mut j: usize = 0;
    while j < cols
        invariant
            cols == grid_columns(core_count as nat),
            cols >= 1,
            top@.len() == cols,
            rows@.len() == 2,
            rows@[0] == row_part(cpu_region, 2, 0),
            forall|i: int| 0 <= i < cols ==> #[trigger] top@[i] == column_part(rows@[0], cols as nat, i as nat),
            j <= cols,
            r@.len() == j,
            forall|c: nat| c < j ==> #[trigger] r@[c as int] == core_cell(cpu_region, core_count as nat, 0, c),
        decreases cols - j,
    {
        let label: Option<usize> = if j < core_count { Some(j + 1) } else { None };
        r.push(CoreCell { area: top[j], label });
        j = j + 1;
    }
    let mut j: usize = 0;
    while j < cols
        invariant
            cols == grid_columns(core_count as nat),
            cols >= 1,
            cols <= core_count,
            bottom@.len() == cols,
            rows@.len() == 2,
            rows@[1] == row_part(cpu_region, 2, 1),
            forall|i: int| 0 <= i < cols ==> #[trigger] bottom@[i] == column_part(rows@[1], cols as nat, i as nat),
            j <= cols,
            r@.len() == cols + j,
            forall|c: nat| c < cols ==> #[trigger] r@[c as int] == core_cell(cpu_region, core_count as nat, 0, c),
            forall|c: nat| c < j ==> #[trigger] r@[cols + c] == core_cell(cpu_region, core_count as nat, 1, c),
        decreases cols - j,
    {
        let index: usize = cols + j;
        let label: Option<usize> = if index < core_count { Some(index + 1) } else { None };
        r.push(CoreCell { area: bottom[j], label });
        j = j + 1;
    }
    proof {
        assert forall|row: nat, col: nat|
            row < 2 && col < grid_columns(core_count as nat) implies #[trigger] grid_cell(
                r@,
                core_count as nat,
                row,
                col,
            ) == core_cell(cpu_region, core_count as nat, row, col) by {
            if row == 0 {
                assert(row * cols + col == col);
            } else {
                assert(row * cols + col == cols + col);
            }
        }
        assert forall|i: int| 0 <= i < r@.len() implies #[trigger] r@[i].label == cell_label(
            core_count as nat,
            i as nat,
        ) by {
            if i < cols {
                assert(r@[i] == core_cell(cpu_region, core_count as nat, 0, i as nat));
            } else {
                assert(r@[cols + (i - cols)] == core_cell(cpu_region, core_count as nat, 1, (i - cols) as nat));
                assert(1 * cols + (i - cols) == i);
            }
        }
    }
    r
}

/// Every part ends within the extent, and the last one ends at its end.
pub proof fn lemma_part_within(extent: nat, count: nat, i: nat)
    requires
        i < count,
    ensures
        part_start(extent, count, i) + part_len(extent, count, i) <= extent,
        i + 1 == count ==> part_start(extent, count, i) + part_len(extent, count, i) == extent,
{
    let u = unit(extent, count);
    lemma_unit_fits(extent, count);
    assert(i * u + u <= count * u) by (nonlinear_arith)
        requires
            i + 1 <= count,
    ;
    assert((count - 1) * u + u == count * u) by (nonlinear_arith)
        requires
            count >= 1,
    ;
}

/// Each offset `d` within the extent falls in one of the parts.
pub proof fn lemma_part_covers(extent: nat, count: nat, d: nat) -> (i: nat)
    requires
        count >= 1,
        d < extent,
    ensures
        i < count,
        part_start(extent, count, i) <= d < part_start(extent, count, i) + part_len(extent, count, i),
{
    let u = unit(extent, count);
    lemma_unit_fits(extent, count);
    let last = (count - 1) as nat;
    assert((count - 1) * u + u == count * u) by (nonlinear_arith)
        requires
            count >= 1,
    ;
    if u == 0 {
        assert(last * u == 0) by (nonlinear_arith)
            requires
                u == 0,
        ;
        last
    } else {
        let q = d / u;
        lemma_fundamental_div_mod(d as int, u as int);
        lemma_mod_pos_bound(d as int, u as int);
        if q < last {
            assert(q * u == u * q) by (nonlinear_arith);
            assert(q * u + u == (q + 1) * u) by (nonlinear_arith);
            q
        } else {
            assert(last * u <= q * u) by (nonlinear_arith)
                requires
                    last <= q,
            ;
            assert(q * u == u * q) by (nonlinear_arith);
            last
        }
    }
}

/// A row of a rectangle within the terminal's range keeps its start and size
/// when written with 16-bit coordinates, and lies within the rectangle.
proof fn lemma_row_part_exact(area: Rect, i: nat)
    requires
        area.wf(),
        i < 2,
    ensures
        row_part(area, 2, i).y == area.y + part_start(area.height as nat, 2, i),
        row_part(area, 2, i).height == part_len(area.height as nat, 2, i),
        row_part(area, 2, i).wf(),
        area.encloses(row_part(area, 2, i)),
{
    lemma_part_within(area.height as nat, 2, i);
}

/// A column of a rectangle within the terminal's range keeps its start and
/// size when written with 16-bit coordinates, and lies within the rectangle.
proof fn lemma_column_part_exact(area: Rect, count: nat, i: nat)
    requires
        area.wf(),
        i < count,
    ensures
        column_part(area, count, i).x == area.x + part_start(area.width as nat, count, i),
        column_part(area, count, i).width == part_len(area.width as nat, count, i),
        column_part(area, count, i).wf(),
        area.encloses(column_part(area, count, i)),
{
    lemma_part_within(area.width as nat, count, i);
}

/// The CPU grid of `core_count` cores: every cell lies within the CPU region,
/// no two cells overlap, together they cover the whole region, and exactly
/// the first `core_count` cells in row-major order carry a label, the cell
/// at position `i` the label `i + 1`. The first row starts at the top of the
/// region and the second half its height below, which is lower on a region
/// of two lines or more; each row starts at the left edge and runs left to
/// right.
pub proof fn lemma_core_grid(region: Rect, core_count: nat)
    requires
        region.wf(),
        core_count >= 1,
    ensures
        core_count <= 2 * grid_columns(core_count),
        forall|row: nat, col: nat|
            row < 2 && col < grid_columns(core_count) ==> region.encloses(
                #[trigger] cell_area(region, core_count, row, col),
            ),
        forall|r1: nat, c1: nat, r2: nat, c2: nat|
            r1 < 2 && r2 < 2 && c1 < grid_columns(core_count) && c2 < grid_columns(core_count) && (
            r1 != r2 || c1 != c2) ==> #[trigger] cell_area(region, core_count, r1, c1).disjoint(
                #[trigger] cell_area(region, core_count, r2, c2),
            ),
        forall|px: int, py: int|
            region.holds_point(px, py) ==> exists|row: nat, col: nat|
                row < 2 && col < grid_columns(core_count) && #[trigger] cell_area(
                    region,
                    core_count,
                    row,
                    col,
                ).holds_point(px, py),
        forall|i: nat|
            i < 2 * grid_columns(core_count) ==> (#[trigger] cell_label(core_count, i) is Some
                <==> i < core_count),
        forall|i: nat|
            i < core_count ==> #[trigger] cell_label(core_count, i) == Some((i + 1) as usize),
        forall|col: nat|
            col < grid_columns(core_count) ==> #[trigger] cell_area(region, core_count, 0, col).y
                == region.y,
        forall|col: nat|
            col < grid_columns(core_count) ==> #[trigger] cell_area(region, core_count, 1, col).y
                == region.y + unit(region.height as nat, 2),
        region.height >= 2 ==> unit(region.height as nat, 2) >= 1,
        forall|row: nat| row < 2 ==> #[trigger] cell_area(region, core_count, row, 0).x == region.x,
        forall|row: nat, c1: nat, c2: nat|
            row < 2 && c1 < c2 < grid_columns(core_count) ==> #[trigger] cell_area(
                region,
                core_count,
                row,
                c1,
            ).right() <= #[trigger] cell_area(region, core_count, row, c2).x,
{
    let cols = grid_columns(core_count);
    assert forall|row: nat, col: nat| row < 2 && col < cols implies {
        let a = #[trigger] cell_area(region, core_count, row, col);
        &&& a.y == region.y + part_start(region.height as nat, 2, row)
        &&& a.x == region.x + part_start(region.width as nat, cols, col)
    } by {
        lemma_row_part_exact(region, row);
        lemma_column_part_exact(row_part(region, 2, row), cols, col);
    }
    assert forall|row: nat, c1: nat, c2: nat|
        row < 2 && c1 < c2 < cols implies #[trigger] cell_area(region, core_count, row, c1).right()
        <= #[trigger] cell_area(region, core_count, row, c2).x by {
        lemma_row_part_exact(region, row);
        lemma_column_part_exact(row_part(region, 2, row), cols, c1);
        lemma_column_part_exact(row_part(region, 2, row), cols, c2);
        lemma_parts_ordered(region.width as nat, cols, c1, c2);
    }
    if region.height >= 2 {
        let h = region.height as nat;
        lemma_div_is_ordered(100, (h * 50) as int, 100);
    }
    assert forall|row: nat, col: nat|
        row < 2 && col < cols implies region.encloses(
            #[trigger] cell_area(region, core_count, row, col),
        ) by {
        lemma_row_part_exact(region, row);
        lemma_column_part_exact(row_part(region, 2, row), cols, col);
    }
    assert forall|r1: nat, c1: nat, r2: nat, c2: nat|
        r1 < 2 && r2 < 2 && c1 < cols && c2 < cols && (r1 != r2 || c1 != c2) implies #[trigger] cell_area(
            region,
            core_count,
            r1,
            c1,
        ).disjoint(#[trigger] cell_area(region, core_count, r2, c2)) by {
        lemma_row_part_exact(region, r1);
        lemma_row_part_exact(region, r2);
        lemma_column_part_exact(row_part(region, 2, r1), cols, c1);
        lemma_column_part_exact(row_part(region, 2, r2), cols, c2);
        if r1 < r2 {
            lemma_parts_ordered(region.height as nat, 2, r1, r2);
        } else if r2 < r1 {
            lemma_parts_ordered(region.height as nat, 2, r2, r1);
        } else if c1 < c2 {
            lemma_parts_ordered(region.width as nat, cols, c1, c2);
        } else {
            lemma_parts_ordered(region.width as nat, cols, c2, c1);
        }
    }
    assert forall|px: int, py: int| region.holds_point(px, py) implies exists|row: nat, col: nat|
        row < 2 && col < cols && #[trigger] cell_area(region, core_count, row, col).holds_point(
            px,
            py,
        ) by {
        let row = lemma_part_covers(region.height as nat, 2, (py - region.y) as nat);
        let col = lemma_part_covers(region.width as nat, cols, (px - region.x) as nat);
        lemma_row_part_exact(region, row);
        lemma_column_part_exact(row_part(region, 2, row), cols, col);
        assert(cell_area(region, core_count, row, col).holds_point(px, py));
    }
}

} // verus!
