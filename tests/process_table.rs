use nvsmi_gui::process::{
    compare_rows, copy_rows, stable_sort, GpuMemory, ProcessData, ProcessKind, ProcessTable,
    SortKind,
};

fn row(pid: u32, kind: ProcessKind, mem: GpuMemory, name: &str) -> ProcessData {
    ProcessData {
        pid,
        used_gpu_memory: mem,
        process_kind: kind,
        process_name: name.to_string(),
    }
}

fn pids(rows: &[ProcessData]) -> Vec<u32> {
    rows.iter().map(|r| r.pid).collect()
}

fn table_with(rows: Vec<ProcessData>) -> ProcessTable {
    let mut t = ProcessTable::default();
    t.set_processes(rows);
    t
}

#[test]
fn default_table() {
    let t = ProcessTable::default();
    assert!(t.striped && t.resizable && t.clickable);
    assert!(t.is_descending());
    assert_eq!(t.sort_kind(), None);
    assert!(t.processes.is_empty());
    assert!(!t.show_plot_window);
    assert!(!t.has_selection());
}

#[test]
fn rows_keep_their_order_without_a_sort_column() {
    let t = table_with(vec![
        row(3, ProcessKind::Compute, GpuMemory::Used(1), "c"),
        row(1, ProcessKind::Graphics, GpuMemory::Used(2), "a"),
    ]);
    assert_eq!(pids(&t.processes), vec![3, 1]);
}

#[test]
fn memory_sort_example_puts_larger_usage_first() {
    let mut t = table_with(vec![
        row(10, ProcessKind::Graphics, GpuMemory::Used(200_000_000), "render"),
        row(5, ProcessKind::Compute, GpuMemory::Unavailable, "train"),
    ]);
    t.click_header(SortKind::Memory);
    assert!(t.is_descending());
    assert_eq!(pids(&t.processes), vec![10, 5]);
}

#[test]
fn memory_sort_treats_unavailable_as_zero_and_is_stable() {
    let rows = vec![
        row(1, ProcessKind::Compute, GpuMemory::Used(0), "a"),
        row(2, ProcessKind::Compute, GpuMemory::Unavailable, "b"),
        row(3, ProcessKind::Compute, GpuMemory::Used(5), "c"),
        row(4, ProcessKind::Compute, GpuMemory::Unavailable, "d"),
    ];
    let mut t = table_with(rows);
    t.click_header(SortKind::Memory);
    assert_eq!(pids(&t.processes), vec![3, 1, 2, 4]);
    t.click_header(SortKind::Memory);
    assert!(!t.is_descending());
    assert_eq!(pids(&t.processes), vec![1, 2, 4, 3]);
}

#[test]
fn clicking_a_header_twice_restores_the_order() {
    let mut t = table_with(vec![
        row(1, ProcessKind::Compute, GpuMemory::Used(1), "a"),
        row(2, ProcessKind::Graphics, GpuMemory::Used(1), "b"),
        row(3, ProcessKind::Compute, GpuMemory::Used(1), "c"),
        row(4, ProcessKind::Graphics, GpuMemory::Used(1), "d"),
    ]);
    t.click_header(SortKind::Type);
    let sorted = pids(&t.processes);
    assert_eq!(sorted, vec![2, 4, 1, 3]);
    t.click_header(SortKind::Type);
    assert_eq!(pids(&t.processes), vec![1, 3, 2, 4]);
    t.click_header(SortKind::Type);
    assert_eq!(pids(&t.processes), sorted);
    assert!(t.is_descending());
}

#[test]
fn switching_column_starts_descending() {
    let mut t = table_with(vec![
        row(1, ProcessKind::Compute, GpuMemory::Used(1), "b"),
        row(2, ProcessKind::Compute, GpuMemory::Used(1), "a"),
    ]);
    t.click_header(SortKind::Pid);
    t.click_header(SortKind::Pid);
    assert!(!t.is_descending());
    assert_eq!(pids(&t.processes), vec![1, 2]);
    t.click_header(SortKind::ProcessName);
    assert_eq!(t.sort_kind(), Some(SortKind::ProcessName));
    assert!(t.is_descending());
    assert_eq!(pids(&t.processes), vec![1, 2]);
}

#[test]
fn pid_sort_descending_then_ascending() {
    let mut t = table_with(vec![
        row(7, ProcessKind::Compute, GpuMemory::Used(1), "x"),
        row(300, ProcessKind::Compute, GpuMemory::Used(1), "y"),
        row(42, ProcessKind::Compute, GpuMemory::Used(1), "z"),
    ]);
    t.click_header(SortKind::Pid);
    assert_eq!(pids(&t.processes), vec![300, 42, 7]);
    t.click_header(SortKind::Pid);
    assert_eq!(pids(&t.processes), vec![7, 42, 300]);
}

#[test]
fn name_sort_is_bytewise_lexicographic() {
    let sorted = stable_sort(
        vec![
            row(1, ProcessKind::Compute, GpuMemory::Used(1), "b"),
            row(2, ProcessKind::Compute, GpuMemory::Used(1), "ab"),
            row(3, ProcessKind::Compute, GpuMemory::Used(1), "B"),
            row(4, ProcessKind::Compute, GpuMemory::Used(1), "a"),
            row(5, ProcessKind::Compute, GpuMemory::Used(1), ""),
        ],
        SortKind::ProcessName,
        false,
    );
    assert_eq!(pids(&sorted), vec![5, 3, 4, 2, 1]);
}

#[test]
fn sorting_empty_rows() {
    let sorted = stable_sort(Vec::new(), SortKind::Pid, true);
    assert!(sorted.is_empty());
}

#[test]
fn new_rows_are_sorted_by_the_active_column() {
    let mut t = ProcessTable::default();
    t.click_header(SortKind::Pid);
    t.set_processes(vec![
        row(1, ProcessKind::Compute, GpuMemory::Used(1), "a"),
        row(9, ProcessKind::Compute, GpuMemory::Used(1), "b"),
        row(4, ProcessKind::Compute, GpuMemory::Used(1), "c"),
    ]);
    assert_eq!(pids(&t.processes), vec![9, 4, 1]);
}

#[test]
fn compare_rows_three_way() {
    let a = row(1, ProcessKind::Compute, GpuMemory::Used(10), "a");
    let b = row(2, ProcessKind::Graphics, GpuMemory::Unavailable, "b");
    assert_eq!(compare_rows(&a, &b, SortKind::Pid, false), -1);
    assert_eq!(compare_rows(&a, &b, SortKind::Pid, true), 1);
    assert_eq!(compare_rows(&a, &b, SortKind::Type, false), -1);
    assert_eq!(compare_rows(&a, &b, SortKind::Memory, false), 1);
    assert_eq!(compare_rows(&a, &a, SortKind::ProcessName, true), 0);
}

#[test]
fn row_selection_toggles() {
    let mut t = ProcessTable::default();
    t.toggle_row_selection(3);
    assert!(t.is_selected(3));
    assert!(t.has_selection());
    t.toggle_row_selection(3);
    assert!(!t.is_selected(3));
    assert!(!t.has_selection());
}

#[test]
fn row_clicks_update_selection_and_detail_flag() {
    let mut t = ProcessTable::default();
    t.apply_row_clicks(&vec![1, 2, 1]);
    assert!(!t.is_selected(1));
    assert!(t.is_selected(2));
    assert!(t.show_plot_window);
    t.apply_row_clicks(&vec![2]);
    assert!(!t.has_selection());
    assert!(!t.show_plot_window);
    t.apply_row_clicks(&vec![]);
    assert!(!t.show_plot_window);
}

#[test]
fn process_kind_labels() {
    assert_eq!(ProcessKind::Compute.label(), "Compute");
    assert_eq!(ProcessKind::Graphics.label(), "Graphics");
}

#[test]
fn rows_copy_field_by_field() {
    let rows = vec![row(8, ProcessKind::Graphics, GpuMemory::Used(3), "gl")];
    let c = copy_rows(&rows);
    assert_eq!(c.len(), 1);
    assert_eq!(c[0].pid, 8);
    assert_eq!(c[0].process_name, "gl");
    assert_eq!(c[0].used_gpu_memory, GpuMemory::Used(3));
}
