use crate::text::{decimal, decimal_string, labeled_number};
use vstd::prelude::*;
use vstd::string::*;

verus! {

/// One process of a snapshot. The CPU figure is kept in hundredths of a
/// percent, as the system reports it: it is not divided by the core count, so
/// on several cores it may pass 100 percent. The disk figures are bytes since
/// the process started.
#[derive(Debug)]
pub struct ProcessRecord {
    pub pid: u32,
    pub name: String,
    pub cpu_hundredths: u64,
    pub disk_read_bytes: u64,
    pub disk_written_bytes: u64,
}

/// The four cells of one row of the process table, as text.
#[derive(Debug)]
pub struct ProcessRow {
    pub pid: String,
    pub name: String,
    pub cpu: String,
    pub disk: String,
}

/// The CPU cell: the percentage with two decimals, then `%`.
pub open spec fn cpu_text(hundredths: nat) -> Seq<char> {
    decimal(hundredths / 100) + "."@ + decimal((hundredths % 100) / 10) + decimal(hundredths % 10) + "%"@
}

/// The disk cell: bytes read and bytes written.
pub open spec fn disk_text(read: nat, written: nat) -> Seq<char> {
    "R: "@ + decimal(read) + " W: "@ + decimal(written)
}

/// `row` shows the record `p`.
pub open spec fn shows(row: ProcessRow, p: ProcessRecord) -> bool {
    &&& row.pid@ == decimal(p.pid as nat)
    &&& row.name@ == p.name@
    &&& row.cpu@ == cpu_text(p.cpu_hundredths as nat)
    &&& row.disk@ == disk_text(p.disk_read_bytes as nat, p.disk_written_bytes as nat)
}

/// Writes a CPU figure given in hundredths of a percent, with two decimals:
/// 1234 gives `"12.34%"`.
pub fn format_cpu(hundredths: u64) -> (r: String)
    ensures
        r@ == cpu_text(hundredths as nat),
{
    let mut s = decimal_string(hundredths / 100);
    s.append(".");
    let tenths = decimal_string((hundredths % 100) / 10);
    s.append(tenths.as_str());
    let rest = decimal_string(hundredths % 10);
    s.append(rest.as_str());
    s.append("%");
    s
}

/// Writes the disk figures: `"R: <read> W: <written>"`, in bytes.
pub fn format_disk(read: u64, written: u64) -> (r: String)
    ensures
        r@ == disk_text(read as nat, written as nat),
{
    let mut s = labeled_number("R: ", read, " W: ");
    let w = decimal_string(written);
    s.append(w.as_str());
    s
}

/// Writes the row of the process table that shows `p`.
pub fn format_row(p: &ProcessRecord) -> (r: ProcessRow)
    ensures
        shows(r, *p),
{
    ProcessRow {
        pid: decimal_string(p.pid as u64),
        name: p.name.clone(),
        cpu: format_cpu(p.cpu_hundredths),
        disk: format_disk(p.disk_read_bytes, p.disk_written_bytes),
    }
}

/// The largest scroll offset for a table of `len` rows seen `visible` at a
/// time: `max(0, len - visible)`.
pub open spec fn max_offset_of(len: nat, visible: nat) -> nat {
    if len > visible { (len - visible) as nat } else { 0 }
}

/// Computes `max(0, len - visible)`.
pub fn max_offset(len: usize, visible: usize) -> (r: usize)
    ensures
        r == max_offset_of(len as nat, visible as nat),
{
    if len > visible {
        len - visible
    } else {
        0
    }
}

/// `offset`, brought down to the largest offset the table allows.
pub open spec fn clamped_offset(offset: nat, len: nat, visible: nat) -> nat {
    if offset <= max_offset_of(len, visible) { offset } else { max_offset_of(len, visible) }
}

/// Brings `offset` down to the largest offset a table of `len` rows seen
/// `visible` at a time allows.
pub fn clamp_offset(offset: usize, len: usize, visible: usize) -> (r: usize)
    ensures
        r == clamped_offset(offset as nat, len as nat, visible as nat),
{
    let m = max_offset(len, visible);
    if offset <= m {
        offset
    } else {
        m
    }
}

/// Number of rows in the visible window of a table of `len` rows, starting at
/// `offset`, at most `visible`.
pub open spec fn window_len(len: nat, offset: nat, visible: nat) -> nat {
    if offset >= len {
        0
    } else if len - offset < visible {
        (len - offset) as nat
    } else {
        visible
    }
}

/// Writes the rows of `records[offset .. offset + visible]`, cut at the end
/// of the table.
pub fn visible_window(records: &Vec<ProcessRecord>, offset: usize, visible: usize) -> (r: Vec<ProcessRow>)
    ensures
        r@.len() == window_len(records@.len(), offset as nat, visible as nat),
        forall|i: int| 0 <= i < r@.len() ==> shows(#[trigger] r@[i], records@[offset + i]),
{
    let mut r: Vec<ProcessRow> = Vec::new();
    let len = records.len();
    let n = if offset >= len {
        0
    } else if len - offset < visible {
        len - offset
    } else {
        visible
    };
    let mut i: usize = 0;
    while i < n
        invariant
            n == window_len(records@.len(), offset as nat, visible as nat),
            n > 0 ==> offset + n <= records@.len(),
            records@.len() <= usize::MAX,
            i <= n,
            r@.len() == i,
            forall|k: int| 0 <= k < i ==> shows(#[trigger] r@[k], records@[offset + k]),
        decreases n - i,
    {
        let row = format_row(&records[offset + i]);
        r.push(row);
        i = i + 1;
    }
    r
}

/// Lines of the process region taken by its border and its header row.
pub const TABLE_CHROME: u16 = 3;

/// Number of data rows that fit in a process region of height `height`.
pub open spec fn rows_for_height_of(height: nat) -> nat {
    if height > TABLE_CHROME { (height - TABLE_CHROME) as nat } else { 0 }
}

/// Number of data rows that fit in a process region of height `height`, its
/// border and header left out.
pub fn rows_for_height(height: u16) -> (r: usize)
    ensures
        r == rows_for_height_of(height as nat),
{
    if height > TABLE_CHROME {
        (height - TABLE_CHROME) as usize
    } else {
        0
    }
}

/// After the table changes length, the offset brought back within it leaves
/// the visible window inside the table: the window never reaches past its
/// last row, whatever the offset was before.
pub proof fn lemma_clamped_window_in_table(offset: nat, len: nat, visible: nat)
    ensures
        clamped_offset(offset, len, visible) <= max_offset_of(len, visible),
        clamped_offset(offset, len, visible) + window_len(len, clamped_offset(offset, len, visible), visible)
            <= len,
        offset <= max_offset_of(len, visible) ==> clamped_offset(offset, len, visible) == offset,
{
}

} // verus!
