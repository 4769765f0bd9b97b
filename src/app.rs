use crate::layout::{partition, Rect};
use crate::memory::MemorySnapshot;
use crate::processes::{clamp_offset, clamped_offset, max_offset_of, rows_for_height, ProcessRecord};
use crate::ui::table_rows;
use vstd::prelude::*;

verus! {

/// A key, as far as the monitor tells keys apart.
#[derive(Clone, Copy, Debug, PartialEq, Eq, Structural)]
pub enum Key {
    Char(char),
    Up,
    Down,
    Other,
}

/// One input event. Only presses of a key are acted on: releases, repeats,
/// resizes, mouse and paste events all come as `Ignored`.
#[derive(Clone, Copy, Debug, PartialEq, Eq, Structural)]
pub enum InputEvent {
    Press(Key),
    Ignored,
}

/// The state of the main loop.
#[derive(Clone, Copy, Debug, PartialEq, Eq, Structural)]
pub enum LoopState {
    Running,
    Exiting,
}

/// The offset after scrolling by `delta` from `offset`, held within
/// `0 ..= max(0, len - visible)`.
pub open spec fn scrolled(offset: nat, delta: int, len: nat, visible: nat) -> nat {
    let target = offset + delta;
    if target < 0 {
        0
    } else if target > max_offset_of(len, visible) {
        max_offset_of(len, visible)
    } else {
        target as nat
    }
}

/// The offset after scrolling by each of `deltas` in turn.
pub open spec fn scrolled_by_all(offset: nat, deltas: Seq<int>, len: nat, visible: nat) -> nat
    decreases deltas.len(),
{
    if deltas.len() == 0 {
        offset
    } else {
        scrolled(scrolled_by_all(offset, deltas.drop_last(), len, visible), deltas.last(), len, visible)
    }
}

/// The monitor's state: whether to exit, the core count, the last snapshot
/// of memory and processes, and the scroll position of the process table.
pub struct App {
    pub exit: bool,
    pub no_cores: usize,
    pub memory: MemorySnapshot,
    pub processes: Vec<ProcessRecord>,
    pub scroll_offset: usize,
    pub visible_rows: usize,
}

impl App {
    /// At least one core, and the scroll offset within the table.
    pub open spec fn wf(&self) -> bool {
        &&& self.no_cores >= 1
        &&& self.scroll_offset <= max_offset_of(self.processes@.len(), self.visible_rows as nat)
    }

    /// The state of the main loop that this state is in.
    pub open spec fn loop_state(&self) -> LoopState {
        if self.exit { LoopState::Exiting } else { LoopState::Running }
    }

    /// A running monitor at the top of the table. A core count of zero is
    /// taken as one.
    pub fn new(
        no_cores: usize,
        memory: MemorySnapshot,
        processes: Vec<ProcessRecord>,
        visible_rows: usize,
    ) -> (r: App)
        ensures
            r.wf(),
            !r.exit,
            r.no_cores == (if no_cores == 0 { 1 } else { no_cores }),
            r.memory == memory,
            r.processes@ == processes@,
            r.scroll_offset == 0,
            r.visible_rows == visible_rows,
    {
        App {
            exit: false,
            no_cores: if no_cores == 0 { 1 } else { no_cores },
            memory,
            processes,
            scroll_offset: 0,
            visible_rows,
        }
    }

    /// Scrolls the process table by `delta` rows, held within
    /// `0 ..= max(0, len - visible_rows)` for the table as it is now, also from
    /// an offset that a shrunk table left past its end.
    pub fn scroll(&mut self, delta: isize)
        requires
            old(self).no_cores >= 1,
        ensures
            final(self).wf(),
            final(self).scroll_offset == scrolled(
                old(self).scroll_offset as nat,
                delta as int,
                old(self).processes@.len(),
                old(self).visible_rows as nat,
            ),
            final(self).exit == old(self).exit,
            final(self).no_cores == old(self).no_cores,
            final(self).memory == old(self).memory,
            final(self).processes@ == old(self).processes@,
            final(self).visible_rows == old(self).visible_rows,
    {
        let len = self.processes.len();
        let m: usize = if len > self.visible_rows { len - self.visible_rows } else { 0 };
        let target: i128 = self.scroll_offset as i128 + delta as i128;
        self.scroll_offset = if target < 0 {
            0
        } else if target > m as i128 {
            m
        } else {
            target as usize
        };
    }

    /// Takes a new snapshot of memory and processes, and brings the scroll
    /// offset back within the new table, which may have shrunk.
    pub fn refresh(&mut self, memory: MemorySnapshot, processes: Vec<ProcessRecord>)
        requires
            old(self).no_cores >= 1,
        ensures
            final(self).wf(),
            final(self).memory == memory,
            final(self).processes@ == processes@,
            final(self).scroll_offset == clamped_offset(
                old(self).scroll_offset as nat,
                processes@.len(),
                old(self).visible_rows as nat,
            ),
            final(self).exit == old(self).exit,
            final(self).no_cores == old(self).no_cores,
            final(self).visible_rows == old(self).visible_rows,
    {
        self.scroll_offset = clamp_offset(self.scroll_offset, processes.len(), self.visible_rows);
        self.memory = memory;
        self.processes = processes;
    }

    /// Sets how many rows of the table are seen at once, and brings the
    /// scroll offset back within the table.
    pub fn set_visible_rows(&mut self, visible_rows: usize)
        requires
            old(self).no_cores >= 1,
        ensures
            final(self).wf(),
            final(self).visible_rows == visible_rows,
            final(self).scroll_offset == clamped_offset(
                old(self).scroll_offset as nat,
                old(self).processes@.len(),
                visible_rows as nat,
            ),
            final(self).exit == old(self).exit,
            final(self).no_cores == old(self).no_cores,
            final(self).memory == old(self).memory,
            final(self).processes@ == old(self).processes@,
    {
        self.scroll_offset = clamp_offset(self.scroll_offset, self.processes.len(), visible_rows);
        self.visible_rows = visible_rows;
    }

    /// Fits the process table to the screen `viewport`: as many rows are seen
    /// at once as its process region holds.
    pub fn fit_to(&mut self, viewport: Rect)
        requires
            old(self).no_cores >= 1,
            viewport.wf(),
        ensures
            final(self).wf(),
            final(self).visible_rows == table_rows(viewport),
            final(self).scroll_offset == clamped_offset(
                old(self).scroll_offset as nat,
                old(self).processes@.len(),
                table_rows(viewport),
            ),
            final(self).exit == old(self).exit,
            final(self).no_cores == old(self).no_cores,
            final(self).memory == old(self).memory,
            final(self).processes@ == old(self).processes@,
    {
        let regions = partition(viewport);
        let visible = rows_for_height(regions.processes.height);
        self.set_visible_rows(visible);
    }

    /// Acts on one input event and returns the state the main loop is then
    /// in: `q` exits, Up and Down scroll by one row, anything else changes
    /// nothing.
    pub fn handle_event(&mut self, event: InputEvent) -> (r: LoopState)
        requires
            old(self).no_cores >= 1,
        ensures
            old(self).wf() ==> final(self).wf(),
            (event == InputEvent::Press(Key::Up) || event == InputEvent::Press(Key::Down))
                ==> final(self).wf(),
            r == final(self).loop_state(),
            final(self).exit == (old(self).exit || event == InputEvent::Press(Key::Char('q'))),
            final(self).scroll_offset == (match event {
                InputEvent::Press(Key::Up) => scrolled(
                    old(self).scroll_offset as nat,
                    -1,
                    old(self).processes@.len(),
                    old(self).visible_rows as nat,
                ),
                InputEvent::Press(Key::Down) => scrolled(
                    old(self).scroll_offset as nat,
                    1,
                    old(self).processes@.len(),
                    old(self).visible_rows as nat,
                ),
                _ => old(self).scroll_offset as nat,
            }),
            final(self).no_cores == old(self).no_cores,
            final(self).memory == old(self).memory,
            final(self).processes@ == old(self).processes@,
            final(self).visible_rows == old(self).visible_rows,
    {
        match event {
            InputEvent::Press(Key::Char('q')) => {
                self.exit = true;
            },
            InputEvent::Press(Key::Up) => {
                self.scroll(-1);
            },
            InputEvent::Press(Key::Down) => {
                self.scroll(1);
            },
            _ => {},
        }
        if self.exit {
            LoopState::Exiting
        } else {
            LoopState::Running
        }
    }
}

/// Scrolling keeps the offset within the table: from an offset within
/// `0 ..= max(0, len - visible)`, any sequence of scrolls ends within it too,
/// and from any other offset any sequence of at least one scroll does;
/// scrolling up at the top and down at the bottom changes nothing.
pub proof fn lemma_scroll_bounds(offset: nat, deltas: Seq<int>, len: nat, visible: nat)
    requires
        visible >= 1,
    ensures
        offset <= max_offset_of(len, visible) || deltas.len() > 0 ==> scrolled_by_all(
            offset,
            deltas,
            len,
            visible,
        ) <= max_offset_of(len, visible),
        scrolled(0, -1, len, visible) == 0,
        scrolled(max_offset_of(len, visible), 1, len, visible) == max_offset_of(len, visible),
    decreases deltas.len(),
{
    if deltas.len() > 0 {
        lemma_scroll_bounds(offset, deltas.drop_last(), len, visible);
    }
}

} // verus!
