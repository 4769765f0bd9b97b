use ramen::app::{App, InputEvent, Key, LoopState};
use ramen::layout::Rect;
use ramen::memory::{
    at_least_one_core, create_mem_lines, get_core_count, MemorySnapshot,
};
use ramen::processes::{
    clamp_offset, format_cpu, format_disk, format_row, max_offset, rows_for_height,
    visible_window, ProcessRecord,
};
use ramen::text::{decimal_string, labeled_number};
use ramen::ui::build_layouts;

fn record(pid: u32) -> ProcessRecord {
    ProcessRecord {
        pid,
        name: format!("proc{}", pid),
        cpu_hundredths: pid as u64 * 7,
        disk_read_bytes: pid as u64 * 1000,
        disk_written_bytes: pid as u64,
    }
}

fn table(n: u32) -> Vec<ProcessRecord> {
    (1..=n).map(record).collect()
}

fn app_with(n: u32, visible: usize) -> App {
    App::new(4, MemorySnapshot::zeroed(), table(n), visible)
}

const DOWN: InputEvent = InputEvent::Press(Key::Down);
const UP: InputEvent = InputEvent::Press(Key::Up);

#[test]
fn twenty_downs_stop_at_the_last_full_window() {
    let mut app = app_with(25, 10);
    for _ in 0..20 {
        assert_eq!(app.handle_event(DOWN), LoopState::Running);
    }
    assert_eq!(app.scroll_offset, 15);
    for _ in 0..5 {
        app.handle_event(DOWN);
        assert_eq!(app.scroll_offset, 15);
    }
}

#[test]
fn up_at_the_top_changes_nothing() {
    let mut app = app_with(25, 10);
    app.handle_event(UP);
    assert_eq!(app.scroll_offset, 0);
    app.handle_event(DOWN);
    app.handle_event(DOWN);
    app.handle_event(UP);
    assert_eq!(app.scroll_offset, 1);
}

#[test]
fn scroll_stays_within_the_table() {
    let mut app = app_with(25, 10);
    app.scroll(-3);
    assert_eq!(app.scroll_offset, 0);
    app.scroll(7);
    assert_eq!(app.scroll_offset, 7);
    app.scroll(100);
    assert_eq!(app.scroll_offset, 15);
    app.scroll(isize::MIN);
    assert_eq!(app.scroll_offset, 0);
    app.scroll(isize::MAX);
    assert_eq!(app.scroll_offset, 15);
}

#[test]
fn short_table_never_scrolls() {
    let mut app = app_with(8, 10);
    app.handle_event(DOWN);
    assert_eq!(app.scroll_offset, 0);
    let mut empty = app_with(0, 10);
    empty.handle_event(DOWN);
    assert_eq!(empty.scroll_offset, 0);
}

#[test]
fn q_exits_from_any_state() {
    let mut app = app_with(25, 10);
    assert_eq!(app.handle_event(InputEvent::Press(Key::Char('q'))), LoopState::Exiting);
    assert!(app.exit);
    let mut scrolled = app_with(25, 10);
    scrolled.scroll(15);
    assert_eq!(scrolled.handle_event(InputEvent::Press(Key::Char('q'))), LoopState::Exiting);
    assert_eq!(scrolled.scroll_offset, 15);
}

#[test]
fn other_events_change_nothing() {
    let mut app = app_with(25, 10);
    app.scroll(3);
    for ev in [
        InputEvent::Press(Key::Char('Q')),
        InputEvent::Press(Key::Char('x')),
        InputEvent::Press(Key::Other),
        InputEvent::Ignored,
    ] {
        assert_eq!(app.handle_event(ev), LoopState::Running);
        assert_eq!(app.scroll_offset, 3);
        assert!(!app.exit);
    }
}

#[test]
fn shrinking_table_brings_the_offset_back() {
    let mut app = app_with(25, 10);
    app.scroll(15);
    assert_eq!(app.scroll_offset, 15);
    app.refresh(MemorySnapshot::zeroed(), table(8));
    assert_eq!(app.scroll_offset, 0);
    assert_eq!(app.processes.len(), 8);
    let mut other = app_with(25, 10);
    other.scroll(15);
    other.refresh(MemorySnapshot::zeroed(), table(20));
    assert_eq!(other.scroll_offset, 10);
}

#[test]
fn fewer_visible_rows_keep_the_offset_and_more_bring_it_back() {
    let mut app = app_with(25, 10);
    app.scroll(15);
    app.set_visible_rows(20);
    assert_eq!(app.scroll_offset, 5);
    app.set_visible_rows(3);
    assert_eq!(app.scroll_offset, 5);
}

#[test]
fn fit_to_uses_the_process_region() {
    let mut app = app_with(25, 10);
    app.fit_to(Rect { x: 0, y: 0, width: 80, height: 40 });
    // 40 rows: 10 for the CPU grid, 6 for memory, 24 for processes, of which
    // 3 go to the border and the header.
    assert_eq!(app.visible_rows, 21);
    app.scroll(100);
    assert_eq!(app.scroll_offset, 4);
}

#[test]
fn zero_cores_are_taken_as_one() {
    let app = App::new(0, MemorySnapshot::zeroed(), Vec::new(), 5);
    assert_eq!(app.no_cores, 1);
    assert_eq!(at_least_one_core(0), 1);
    assert_eq!(at_least_one_core(16), 16);
}

#[test]
fn eight_gigabytes_show_as_8000_mb() {
    let m = MemorySnapshot::from_bytes(8_000_000_000, 1_999_999, 999_999, 2_500_000_000);
    assert_eq!(m.total_mb, 8000);
    assert_eq!(m.used_mb, 1);
    assert_eq!(m.total_swap_mb, 0);
    assert_eq!(m.used_swap_mb, 2500);
    let lines = create_mem_lines(&m);
    assert_eq!(
        lines,
        vec![
            "Total Memory: 8000 MB",
            "Used Memory: 1 MB",
            "Total Swap: 0 MB",
            "Used Swap: 2500 MB"
        ]
    );
}

#[test]
fn largest_byte_count_is_truncated() {
    let m = MemorySnapshot::from_bytes(u64::MAX, 0, 0, 0);
    assert_eq!(m.total_mb, 18_446_744_073_709);
}

#[test]
fn core_count_comes_from_sysinfo() {
    let sys = sysinfo::System::new_all();
    let cores = get_core_count(&sys);
    assert!(cores >= 1);
    assert_eq!(cores, sys.cpus().len().max(1));
}

#[test]
fn decimal_text() {
    assert_eq!(decimal_string(0), "0");
    assert_eq!(decimal_string(7), "7");
    assert_eq!(decimal_string(10), "10");
    assert_eq!(decimal_string(1234567890), "1234567890");
    assert_eq!(decimal_string(u64::MAX), u64::MAX.to_string());
    assert_eq!(labeled_number("<", 42, ">"), "<42>");
}

#[test]
fn cpu_has_two_decimals() {
    assert_eq!(format_cpu(1234), "12.34%");
    assert_eq!(format_cpu(5), "0.05%");
    assert_eq!(format_cpu(0), "0.00%");
    assert_eq!(format_cpu(50), "0.50%");
    assert_eq!(format_cpu(35000), "350.00%");
}

#[test]
fn disk_shows_raw_bytes() {
    assert_eq!(format_disk(10, 0), "R: 10 W: 0");
    assert_eq!(format_disk(1048576, 4096), "R: 1048576 W: 4096");
}

#[test]
fn row_shows_each_field() {
    let row = format_row(&record(12));
    assert_eq!(row.pid, "12");
    assert_eq!(row.name, "proc12");
    assert_eq!(row.cpu, "0.84%");
    assert_eq!(row.disk, "R: 12000 W: 12");
}

#[test]
fn window_is_cut_at_the_end_of_the_table() {
    let t = table(25);
    let rows = visible_window(&t, 20, 10);
    assert_eq!(rows.len(), 5);
    assert_eq!(rows[0].pid, "21");
    assert_eq!(rows[4].pid, "25");
    assert_eq!(visible_window(&t, 0, 10).len(), 10);
    assert_eq!(visible_window(&t, 30, 10).len(), 0);
    assert_eq!(visible_window(&Vec::new(), 0, 10).len(), 0);
}

#[test]
fn offsets_are_held_within_the_table() {
    assert_eq!(max_offset(25, 10), 15);
    assert_eq!(max_offset(8, 10), 0);
    assert_eq!(clamp_offset(15, 8, 10), 0);
    assert_eq!(clamp_offset(3, 25, 10), 3);
    assert_eq!(clamp_offset(40, 25, 10), 15);
    assert_eq!(rows_for_height(2), 0);
    assert_eq!(rows_for_height(3), 0);
    assert_eq!(rows_for_height(24), 21);
}

#[test]
fn frame_shows_every_part() {
    let t = table(30);
    let memory = MemorySnapshot::from_bytes(8_000_000_000, 0, 0, 0);
    let screen = build_layouts(5, Rect { x: 0, y: 0, width: 90, height: 40 }, &memory, &t, 2);
    assert_eq!(screen.regions.cpu, Rect { x: 0, y: 0, width: 90, height: 10 });
    assert_eq!(screen.cores.len(), 6);
    assert_eq!(screen.cores[5].label, None);
    assert_eq!(screen.memory_lines[0], "Total Memory: 8000 MB");
    assert_eq!(screen.rows.len(), 21);
    assert_eq!(screen.rows[0].pid, "3");
}

#[test]
fn frame_brings_a_stale_offset_back() {
    let t = table(8);
    let screen = build_layouts(
        2,
        Rect { x: 0, y: 0, width: 90, height: 40 },
        &MemorySnapshot::zeroed(),
        &t,
        15,
    );
    assert_eq!(screen.rows.len(), 8);
    assert_eq!(screen.rows[0].pid, "1");
    let empty = build_layouts(1, Rect { x: 0, y: 0, width: 90, height: 40 }, &MemorySnapshot::zeroed(), &Vec::new(), 0);
    assert_eq!(empty.rows.len(), 0);
}

#[test]
fn scrolling_from_a_stale_offset_lands_within_the_table() {
    let mut down = app_with(8, 10);
    down.scroll_offset = 15;
    down.handle_event(DOWN);
    assert_eq!(down.scroll_offset, 0);
    let mut up = app_with(8, 10);
    up.scroll_offset = 15;
    up.handle_event(UP);
    assert_eq!(up.scroll_offset, 0);
    let mut partly = app_with(20, 10);
    partly.scroll_offset = 15;
    partly.handle_event(UP);
    assert_eq!(partly.scroll_offset, 10);
}

#[test]
fn refresh_and_resize_mend_a_stale_offset() {
    let mut app = app_with(8, 10);
    app.scroll_offset = 15;
    app.refresh(MemorySnapshot::zeroed(), table(12));
    assert_eq!(app.scroll_offset, 2);
    let mut other = app_with(8, 10);
    other.scroll_offset = 15;
    other.set_visible_rows(5);
    assert_eq!(other.scroll_offset, 3);
}
