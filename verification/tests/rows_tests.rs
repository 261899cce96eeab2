use anyproc::rows::{build_rows, cpu_order_key, make_row, row_key, ProcInfo, SortMode};

fn proc(pid: u32, name: &str, cmd: &str, cpu: f32, memory: u64) -> ProcInfo {
    ProcInfo { pid, name: name.to_string(), cmd: cmd.to_string(), cpu_bits: cpu.to_bits(), memory }
}

fn snapshot() -> Vec<ProcInfo> {
    vec![
        proc(10, "bash", "/bin/bash -l", 0.5, 4 * 1024 * 1024),
        proc(20, "Firefox", "/usr/lib/firefox/firefox", 12.0, 900 * 1024 * 1024),
        proc(5, "sshd", "sshd: /usr/sbin/sshd -D", 0.0, 6 * 1024 * 1024),
        proc(30, "cargo", "cargo build --release", 12.0, 300 * 1024 * 1024 + 5),
    ]
}

fn pids(rows: &[anyproc::rows::ProcRow]) -> Vec<u32> {
    rows.iter().map(|r| r.pid).collect()
}

#[test]
fn memory_is_whole_mebibytes() {
    let r = make_row(&proc(1, "a", "b", 1.0, 3 * 1024 * 1024 - 1));
    assert_eq!(r.mem_mb, 2);
    let r = make_row(&proc(1, "a", "b", 1.0, 1024 * 1024));
    assert_eq!(r.mem_mb, 1);
}

#[test]
fn blank_search_shows_every_process() {
    let rows = build_rows(&snapshot(), &"   ".to_string(), SortMode::Pid);
    assert_eq!(pids(&rows), vec![30, 20, 10, 5]);
}

#[test]
fn sort_by_cpu_is_descending_and_stable() {
    let rows = build_rows(&snapshot(), &String::new(), SortMode::Cpu);
    // 20 and 30 tie at 12.0 and keep their snapshot order.
    assert_eq!(pids(&rows), vec![20, 30, 10, 5]);
    for w in rows.windows(2) {
        assert!(f32::from_bits(w[0].cpu_bits) >= f32::from_bits(w[1].cpu_bits));
    }
}

#[test]
fn sort_by_memory() {
    let rows = build_rows(&snapshot(), &String::new(), SortMode::Mem);
    assert_eq!(pids(&rows), vec![20, 30, 5, 10]);
    assert_eq!(rows[1].mem_mb, 300);
}

#[test]
fn search_is_case_insensitive_and_any_term_matches() {
    let rows = build_rows(&snapshot(), &"FIREFOX".to_string(), SortMode::Pid);
    assert_eq!(pids(&rows), vec![20]);
    let rows = build_rows(&snapshot(), &"sshd  cargo".to_string(), SortMode::Pid);
    assert_eq!(pids(&rows), vec![30, 5]);
    let rows = build_rows(&snapshot(), &"nothing-here".to_string(), SortMode::Pid);
    assert!(rows.is_empty());
}

#[test]
fn search_looks_at_name_and_command() {
    let rows = build_rows(&snapshot(), &"sbin".to_string(), SortMode::Pid);
    assert_eq!(pids(&rows), vec![5]);
    let rows = build_rows(&snapshot(), &"bash".to_string(), SortMode::Pid);
    assert_eq!(pids(&rows), vec![10]);
}

#[test]
fn keys_per_mode() {
    let r = make_row(&proc(7, "a", "b", 2.5, 9 * 1024 * 1024));
    assert_eq!(row_key(&r, SortMode::Pid), 7);
    assert_eq!(row_key(&r, SortMode::Mem), 9);
    assert_eq!(row_key(&r, SortMode::Cpu), (2.5f32.to_bits() | 0x8000_0000) as u64);
}

#[test]
fn cpu_key_orders_like_the_floats() {
    let values = [
        f32::NEG_INFINITY, -1e30, -12.5, -1.0, -1e-40, -0.0, 0.0, 1e-40, 0.1, 1.0, 12.0, 99.9,
        1e30, f32::INFINITY,
    ];
    for a in values {
        for b in values {
            let ka = cpu_order_key(a.to_bits());
            let kb = cpu_order_key(b.to_bits());
            assert_eq!(ka.cmp(&kb), a.partial_cmp(&b).unwrap(), "{} vs {}", a, b);
        }
    }
}

#[test]
fn negative_and_zero_cpu_sort_below_positive() {
    let snap = vec![
        proc(1, "a", "a", -0.0, 0),
        proc(2, "b", "b", -3.0, 0),
        proc(3, "c", "c", 0.0, 0),
        proc(4, "d", "d", 0.5, 0),
    ];
    let rows = build_rows(&snap, &String::new(), SortMode::Cpu);
    // The two zeros tie and keep snapshot order.
    assert_eq!(pids(&rows), vec![4, 1, 3, 2]);
    assert_eq!(f32::from_bits(rows[3].cpu_bits), -3.0);
}
