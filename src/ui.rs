use crate::layout::{
    cell_label, core_cell, grid_cell, grid_columns, partition, partition_cores, regions_of, CoreCell, Rect,
    Regions,
};
use crate::memory::{create_mem_lines, memory_lines, MemorySnapshot};
use crate::processes::{
    clamp_offset, clamped_offset, rows_for_height, rows_for_height_of, shows, visible_window,
    window_len, ProcessRecord, ProcessRow,
};
use vstd::prelude::*;

verus! {

/// Everything one frame shows, and where: the three regions, the CPU grid,
/// the memory panel's lines and the visible rows of the process table.
pub struct Screen {
    pub regions: Regions,
    pub cores: Vec<CoreCell>,
    pub memory_lines: Vec<String>,
    pub rows: Vec<ProcessRow>,
}

/// Number of data rows the process region of a screen `viewport` holds.
pub open spec fn table_rows(viewport: Rect) -> nat {
    rows_for_height_of(regions_of(viewport).processes.height as nat)
}

/// Lays out one frame on the screen `viewport`: the CPU grid of `no_cores`
/// cores, the memory panel, and the rows of the process table from
/// `scroll_offset` on, as many as the process region holds. An offset past
/// the end of the table is brought back first.
pub fn build_layouts(
    no_cores: usize,
    viewport: Rect,
    memory: &MemorySnapshot,
    processes: &Vec<ProcessRecord>,
    scroll_offset: usize,
) -> (r: Screen)
    requires
        viewport.wf(),
        no_cores >= 1,
    ensures
        r.regions == regions_of(viewport),
        r.cores@.len() == 2 * grid_columns(no_cores as nat),
        forall|row: nat, col: nat|
            row < 2 && col < grid_columns(no_cores as nat) ==> #[trigger] grid_cell(
                r.cores@,
                no_cores as nat,
                row,
                col,
            ) == core_cell(r.regions.cpu, no_cores as nat, row, col),
        forall|i: int|
            0 <= i < r.cores@.len() ==> #[trigger] r.cores@[i].label == cell_label(no_cores as nat, i as nat),
        r.memory_lines@.len() == 4,
        forall|i: int| 0 <= i < 4 ==> #[trigger] r.memory_lines@[i]@ == memory_lines(*memory)[i],
        ({
            let v = table_rows(viewport);
            let o = clamped_offset(scroll_offset as nat, processes@.len(), v);
            &&& r.rows@.len() == window_len(processes@.len(), o, v)
            &&& forall|i: int| 0 <= i < r.rows@.len() ==> shows(#[trigger] r.rows@[i], processes@[o + i])
        }),
{
    let regions = partition(viewport);
    let cores = partition_cores(regions.cpu, no_cores);
    let memory_lines = create_mem_lines(memory);
    let visible = rows_for_height(regions.processes.height);
    let offset = clamp_offset(scroll_offset, processes.len(), visible);
    let rows = visible_window(processes, offset, visible);
    Screen { regions, cores, memory_lines, rows }
}

} // verus!
