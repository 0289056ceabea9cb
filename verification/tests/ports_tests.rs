use codex_runtime_bridge::ports::{
    collect_debug_flag_ports, is_antigravity_process, parse_netstat_listeners, parse_netstat_line,
    parse_port_from_address, parse_port_value, push_port_candidate, push_ports_from_flag,
    unique_inspector_ports, InspectorPortCandidate, PortScan, ProcessInfo,
};

fn strings(v: &[&str]) -> Vec<String> {
    v.iter().map(|s| s.to_string()).collect()
}

fn process(pid: u32, parent: Option<u32>, name: &str, exe: Option<&str>, args: &[&str]) -> ProcessInfo {
    ProcessInfo {
        pid,
        parent_pid: parent,
        name: name.to_string(),
        exe_path: exe.map(|s| s.to_string()),
        args: strings(args),
    }
}

#[test]
fn port_values_read_trailing_digits_only() {
    assert_eq!(parse_port_value("--inspect=9229"), Some(9229));
    assert_eq!(parse_port_value("0"), None);
    assert_eq!(parse_port_value("70000"), None);
    assert_eq!(parse_port_value("65535"), Some(65535));
    assert_eq!(parse_port_value("abc"), None);
    assert_eq!(parse_port_value(""), None);
    assert_eq!(parse_port_value("9229x"), None);
}

#[test]
fn addresses_give_the_port_after_the_last_colon() {
    assert_eq!(parse_port_from_address("127.0.0.1:9333"), Some(9333));
    assert_eq!(parse_port_from_address("[::]:9444"), Some(9444));
    assert_eq!(parse_port_from_address("0.0.0.0:0"), None);
    assert_eq!(parse_port_from_address("9555"), Some(9555));
    assert_eq!(parse_port_from_address("host:+80"), Some(80));
    assert_eq!(parse_port_from_address("host:"), None);
}

#[test]
fn netstat_rows_other_than_listening_tcp_are_skipped() {
    assert_eq!(
        parse_netstat_line("  TCP    127.0.0.1:9333    127.0.0.1:5000    ESTABLISHED    4242"),
        None
    );
    assert_eq!(parse_netstat_line("  UDP    0.0.0.0:5353    *:*    LISTENING  77"), None);
    assert_eq!(parse_netstat_line("  tcp    0.0.0.0:80    0.0.0.0:0    listening    12"), Some((12, 80)));
    assert_eq!(parse_netstat_line("  TCP    0.0.0.0:80    LISTENING    12"), None);
    assert_eq!(parse_netstat_line("  TCP    0.0.0.0:80    0.0.0.0:0    LISTENING    x"), None);
}

#[test]
fn netstat_output_is_read_line_by_line() {
    let out = "Active Connections\r\n\r\n  Proto  Local Address  Foreign Address  State  PID\r\n  TCP    127.0.0.1:9333    0.0.0.0:0    LISTENING    4242\r\n  TCP    [::]:9444    [::]:0    LISTENING    5252\r\n";
    assert_eq!(parse_netstat_listeners(out), vec![(4242, 9333), (5252, 9444)]);
    assert_eq!(parse_netstat_listeners(""), vec![]);
}

#[test]
fn flag_ports_come_in_both_forms() {
    let args = strings(&[
        "antigravity.exe",
        "--inspect-extensions=9333",
        "--remote-debugging-port",
        "9000",
        "--inspect-extensions",
        "127.0.0.1:9334",
        "--inspect-extensions",
    ]);
    assert_eq!(collect_debug_flag_ports(&args, "--inspect-extensions"), vec![9333, 9334]);
    assert_eq!(collect_debug_flag_ports(&args, "--remote-debugging-port"), vec![9000]);
    assert_eq!(collect_debug_flag_ports(&args, "--debug"), Vec::<u16>::new());
}

#[test]
fn candidates_leave_out_port_zero() {
    let mut candidates = Vec::new();
    push_port_candidate(&mut candidates, 1, 0, 0);
    push_port_candidate(&mut candidates, 1, 9229, 4);
    assert_eq!(candidates.len(), 1);
    assert_eq!((candidates[0].pid, candidates[0].port, candidates[0].priority), (1, 9229, 4));
    push_ports_from_flag(&mut candidates, 2, &strings(&["--inspect=9230"]), "--inspect", 0);
    assert_eq!(candidates.len(), 2);
    assert_eq!((candidates[1].pid, candidates[1].port, candidates[1].priority), (2, 9230, 0));
}

#[test]
fn antigravity_processes_are_known_by_name_or_path() {
    assert!(is_antigravity_process("Antigravity.exe", None));
    assert!(is_antigravity_process("electron", Some("C:\\Program Files\\Antigravity\\ANTIGRAVITY.EXE")));
    assert!(!is_antigravity_process("node.exe", Some("C:\\node\\node.exe")));
    assert!(!is_antigravity_process("antigravity", Some("/opt/antigravity.exe")));
}

#[test]
fn port_scan_reads_antigravity_children_and_netstat() {
    let processes = vec![
        process(10, None, "Antigravity.exe", None, &["Antigravity.exe", "--remote-debugging-port=9000"]),
        process(11, Some(10), "Antigravity.exe", None, &["--type=utility", "--utility-sub-type=node.mojom.NodeService"]),
        process(12, Some(11), "node.exe", None, &["node", "--inspect=9333"]),
        process(13, Some(99), "node.exe", None, &["node", "--inspect=9444"]),
        process(14, Some(10), "helper.exe", None, &["--debug", "5858"]),
    ];
    let mut scan = PortScan::scan_processes(&processes);
    assert_eq!(scan.antigravity_pids, vec![10, 11]);
    assert_eq!(scan.node_service_pids, vec![11]);
    let found: Vec<(u32, u16, u8)> = scan
        .candidates
        .iter()
        .map(|c| (c.pid, c.port, c.priority))
        .collect();
    assert_eq!(found, vec![(10, 9000, 5), (12, 9333, 0), (14, 5858, 4)]);
    assert!(scan.needs_netstat());

    scan.add_netstat_listeners(
        "  TCP    127.0.0.1:9500    0.0.0.0:0    LISTENING    11\n  TCP    127.0.0.1:9000    0.0.0.0:0    LISTENING    10\n  TCP    127.0.0.1:1234    0.0.0.0:0    LISTENING    99\n",
    );
    let ports: Vec<(u32, u16)> = unique_inspector_ports(scan.candidates)
        .iter()
        .map(|p| (p.pid, p.port))
        .collect();
    assert_eq!(ports, vec![(11, 9500), (12, 9333), (14, 5858), (10, 9000)]);
}

#[test]
fn ranked_ports_keep_each_pair_once_at_its_best_rank() {
    let c = |pid, port, priority| InspectorPortCandidate { pid, port, priority };
    let ports: Vec<(u32, u16)> = unique_inspector_ports(vec![
        c(7, 9000, 5),
        c(3, 9229, 0),
        c(7, 9000, 0),
        c(3, 9229, 4),
        c(2, 9300, 5),
    ])
    .iter()
    .map(|p| (p.pid, p.port))
    .collect();
    assert_eq!(ports, vec![(3, 9229), (7, 9000), (2, 9300)]);
}

#[test]
fn no_antigravity_process_means_no_netstat() {
    let scan = PortScan::scan_processes(&vec![process(1, None, "explorer.exe", None, &[])]);
    assert!(!scan.needs_netstat());
    assert!(scan.candidates.is_empty());
}

#[test]
fn netstat_output_split_at_a_newline_reads_each_part() {
    let a = "  TCP    127.0.0.1:9229     0.0.0.0:0      LISTENING       4242\r";
    let b = "  TCP    0.0.0.0:9333       0.0.0.0:0      LISTENING       77\r\n  UDP    0.0.0.0:1 *:* 5";
    let whole = format!("{}\n{}", a, b);
    let mut parts = parse_netstat_listeners(a);
    parts.extend(parse_netstat_listeners(b));
    assert_eq!(parse_netstat_listeners(&whole), parts);
    assert_eq!(parts, vec![(4242, 9229), (77, 9333)]);
    assert!(parse_netstat_listeners("").is_empty());
}
