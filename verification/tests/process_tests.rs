use proc_manager::filters::filter_processes;
use proc_manager::processes::{
    flat_order, parse_remote_processes, pids_named, remote_kill_command, remote_process_command, tree_order,
    ProcessRow,
};
use proc_manager::screens::SortColumn;

fn row(pid: u32, parent: Option<u32>, name: &str, cpu_key: u64, memory: u64) -> ProcessRow {
    ProcessRow { pid, parent, name: name.to_string(), cpu_key, memory }
}

fn sample() -> Vec<ProcessRow> {
    vec![
        row(1, None, "init", 5, 100),
        row(30, Some(1), "bash", 1, 300),
        row(20, Some(1), "Sshd", 9, 200),
        row(40, Some(30), "vim", 1, 50),
    ]
}

#[test]
fn flat_order_sorts_by_each_column() {
    let rows = sample();
    assert_eq!(flat_order(&rows, SortColumn::Pid, false), vec![0, 2, 1, 3]);
    assert_eq!(flat_order(&rows, SortColumn::Pid, true), vec![3, 1, 2, 0]);
    assert_eq!(flat_order(&rows, SortColumn::Memory, true), vec![1, 2, 0, 3]);
    assert_eq!(flat_order(&rows, SortColumn::Name, false), vec![1, 0, 2, 3]);
}

#[test]
fn flat_order_keeps_ties_in_place() {
    let rows = sample();
    assert_eq!(flat_order(&rows, SortColumn::Cpu, false), vec![1, 3, 0, 2]);
    assert_eq!(flat_order(&rows, SortColumn::Cpu, true), vec![2, 0, 1, 3]);
}

#[test]
fn tree_order_nests_children_under_parents() {
    let rows = sample();
    let t = tree_order(&rows, SortColumn::Pid, false);
    assert_eq!(t, vec![(0, 0), (2, 1), (1, 1), (3, 2)]);
    let t = tree_order(&rows, SortColumn::Pid, true);
    assert_eq!(t, vec![(0, 0), (1, 1), (3, 2), (2, 1)]);
}

#[test]
fn tree_order_treats_orphans_as_roots() {
    let rows = vec![row(5, Some(999), "orphan", 0, 0), row(6, Some(5), "child", 0, 0)];
    let t = tree_order(&rows, SortColumn::Pid, false);
    assert_eq!(t, vec![(0, 0), (1, 1)]);
}

#[test]
fn process_filter_matches_name_or_pid() {
    let rows = sample();
    assert_eq!(filter_processes(&rows, "SSH"), vec![2]);
    assert_eq!(filter_processes(&rows, "3"), vec![1]);
    assert_eq!(filter_processes(&rows, ""), vec![0, 1, 2, 3]);
}

#[test]
fn remote_commands() {
    assert_eq!(remote_process_command(), "ps axo pid,ppid,pcpu,rss,user,comm");
    assert_eq!(remote_kill_command(4242), "kill -9 '4242'");
}

#[test]
fn remote_listing_is_parsed() {
    let out = "  PID  PPID %CPU   RSS USER     COMMAND\n    1     0  0.0  1024 root     /sbin/init splash\n  abc   1   0.0    10 root     bad\n   77     x  2.5  notanumber bob   vim\nshort line\n";
    let v = parse_remote_processes(out).unwrap();
    assert_eq!(v.len(), 2);
    assert_eq!(v[0].pid, 1);
    assert_eq!(v[0].parent, Some(0));
    assert_eq!(v[0].cpu, "0.0");
    assert_eq!(v[0].memory, 1024 * 1024);
    assert_eq!(v[0].user, "root");
    assert_eq!(v[0].command, "/sbin/init splash");
    assert_eq!(v[1].pid, 77);
    assert_eq!(v[1].parent, None);
    assert_eq!(v[1].memory, 0);
    assert_eq!(v[1].command, "vim");
}

#[test]
fn remote_listing_with_huge_sizes_is_refused() {
    let out = "PID PPID %CPU RSS USER COMMAND\n1 0 0.0 18446744073709551615 root init\n";
    assert!(parse_remote_processes(out).is_none());
    assert!(parse_remote_processes("").unwrap().is_empty());
}

#[test]
fn kills_by_name_match_the_whole_name() {
    let rows = vec![row(1, None, "node", 0, 0), row(2, None, "nodejs", 0, 0), row(3, None, "node", 0, 0), row(4, None, "Node", 0, 0)];
    assert_eq!(pids_named(&rows, "node"), vec![1, 3]);
    assert!(pids_named(&rows, "no").is_empty());
}
