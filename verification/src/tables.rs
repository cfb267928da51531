//! What each screen shows, as text: the cells of its rows, the colour each
//! state is shown in, and the titles of its boxes. The host lays them out.
use vstd::prelude::*;
use crate::docker::ContainerStatus;
use crate::ports::{PortInfo, Protocol};
use crate::processes::ProcessRow;
use crate::services::ServiceStatus;
use crate::text::{copy_str, decimal, spec_decimal, spec_join, str_eq};
use crate::workspaces::{WorkspaceItem, WorkspaceItemType};

verus! {

/// The colours the screens use for states.
#[derive(Debug, Clone, Copy, PartialEq, Eq, Structural)]
pub enum Tone {
    Plain,
    Green,
    Red,
    Yellow,
    LightYellow,
    Gray,
    DarkGray,
    Cyan,
    Magenta,
    Blue,
}

// ---------------------------------------------------------------------------
// Services and containers
// ---------------------------------------------------------------------------

/// A service state's name.
pub open spec fn spec_service_status_text(s: ServiceStatus) -> Seq<char> {
    match s {
        ServiceStatus::Running => "Running"@,
        ServiceStatus::Stopped => "Stopped"@,
        ServiceStatus::Failed => "Failed"@,
        ServiceStatus::Restarting => "Restarting"@,
        ServiceStatus::Unknown => "Unknown"@,
    }
}

/// The name a service state is shown by.
pub fn service_status_text(s: ServiceStatus) -> (t: &'static str)
    ensures
        t@ == spec_service_status_text(s),
{
    match s {
        ServiceStatus::Running => "Running",
        ServiceStatus::Stopped => "Stopped",
        ServiceStatus::Failed => "Failed",
        ServiceStatus::Restarting => "Restarting",
        ServiceStatus::Unknown => "Unknown",
    }
}

/// The colour of a service state: running green, failed red, stopped grey,
/// restarting yellow, unknown dark grey.
pub fn service_tone(s: ServiceStatus) -> (t: Tone)
    ensures
        t == match s {
            ServiceStatus::Running => Tone::Green,
            ServiceStatus::Failed => Tone::Red,
            ServiceStatus::Stopped => Tone::Gray,
            ServiceStatus::Restarting => Tone::Yellow,
            ServiceStatus::Unknown => Tone::DarkGray,
        },
{
    match s {
        ServiceStatus::Running => Tone::Green,
        ServiceStatus::Failed => Tone::Red,
        ServiceStatus::Stopped => Tone::Gray,
        ServiceStatus::Restarting => Tone::Yellow,
        ServiceStatus::Unknown => Tone::DarkGray,
    }
}

/// Whether a service starts at boot, as shown.
pub fn enabled_text(enabled: bool) -> (t: &'static str)
    ensures
        t@ == if enabled {
            "Yes"@
        } else {
            "No"@
        },
{
    if enabled {
        "Yes"
    } else {
        "No"
    }
}

/// The colour of a container state.
pub fn container_tone(s: ContainerStatus) -> (t: Tone)
    ensures
        t == match s {
            ContainerStatus::Running => Tone::Green,
            ContainerStatus::Exited => Tone::Red,
            ContainerStatus::Paused => Tone::Yellow,
            ContainerStatus::Restarting => Tone::LightYellow,
            ContainerStatus::Dead => Tone::DarkGray,
            ContainerStatus::Created => Tone::Cyan,
            ContainerStatus::Removing => Tone::Gray,
            ContainerStatus::Stopped => Tone::Gray,
            ContainerStatus::Unknown => Tone::Gray,
        },
{
    match s {
        ContainerStatus::Running => Tone::Green,
        ContainerStatus::Exited => Tone::Red,
        ContainerStatus::Paused => Tone::Yellow,
        ContainerStatus::Restarting => Tone::LightYellow,
        ContainerStatus::Dead => Tone::DarkGray,
        ContainerStatus::Created => Tone::Cyan,
        ContainerStatus::Removing => Tone::Gray,
        ContainerStatus::Stopped => Tone::Gray,
        ContainerStatus::Unknown => Tone::Gray,
    }
}

/// The colour of a server's connection state: connected green,
/// disconnected red, anything else grey.
pub fn server_tone(status: &str) -> (t: Tone)
    ensures
        t == if status@ == "Connected"@ {
            Tone::Green
        } else if status@ == "Disconnected"@ {
            Tone::Red
        } else {
            Tone::Gray
        },
{
    if str_eq(status, "Connected") {
        Tone::Green
    } else if str_eq(status, "Disconnected") {
        Tone::Red
    } else {
        Tone::Gray
    }
}

// ---------------------------------------------------------------------------
// Ports
// ---------------------------------------------------------------------------

/// A protocol as the port list names it.
pub open spec fn spec_protocol_label(p: Protocol) -> Seq<char> {
    match p {
        Protocol::Tcp => "TCP"@,
        Protocol::Udp => "UDP"@,
    }
}

/// The colour of a socket state, and whether it is bold: listening sockets
/// green and bold, established ones yellow, closing ones dark grey.
pub open spec fn spec_port_state_tone(state: Seq<char>) -> (Tone, bool) {
    if state == "LISTEN"@ {
        (Tone::Green, true)
    } else if state == "ESTABLISHED"@ {
        (Tone::Yellow, false)
    } else if state == "TIME_WAIT"@ || state == "CLOSE_WAIT"@ {
        (Tone::DarkGray, false)
    } else {
        (Tone::Plain, false)
    }
}

/// How a socket state is coloured.
pub fn port_state_tone(state: &str) -> (t: (Tone, bool))
    ensures
        t == spec_port_state_tone(state@),
{
    if str_eq(state, "LISTEN") {
        (Tone::Green, true)
    } else if str_eq(state, "ESTABLISHED") {
        (Tone::Yellow, false)
    } else if str_eq(state, "TIME_WAIT") || str_eq(state, "CLOSE_WAIT") {
        (Tone::DarkGray, false)
    } else {
        (Tone::Plain, false)
    }
}

/// The first shown process with this pid.
pub open spec fn row_with_pid(rows: Seq<ProcessRow>, pid: u32) -> Option<int>
    decreases rows.len(),
{
    if rows.len() == 0 {
        None
    } else {
        match row_with_pid(rows.drop_last(), pid) {
            Some(i) => Some(i),
            None => if rows.last().pid == pid {
                Some(rows.len() - 1)
            } else {
                None
            },
        }
    }
}

proof fn lemma_row_with_pid_prefix(rows: Seq<ProcessRow>, pid: u32, k: int)
    requires
        0 <= k <= rows.len(),
        row_with_pid(rows.take(k), pid) is Some,
    ensures
        row_with_pid(rows, pid) == row_with_pid(rows.take(k), pid),
    decreases rows.len() - k,
{
    if k < rows.len() {
        assert(rows.take(k + 1).drop_last() == rows.take(k));
        lemma_row_with_pid_prefix(rows, pid, k + 1);
    } else {
        assert(rows.take(k) == rows);
    }
}

proof fn lemma_row_with_pid_range(rows: Seq<ProcessRow>, pid: u32)
    ensures
        row_with_pid(rows, pid) matches Some(i) ==> 0 <= i < rows.len() && rows[i].pid == pid,
    decreases rows.len(),
{
    if rows.len() > 0 {
        lemma_row_with_pid_range(rows.drop_last(), pid);
    }
}

/// The position among the shown processes of the first with this pid.
pub fn find_pid(rows: &Vec<ProcessRow>, pid: u32) -> (r: Option<usize>)
    ensures
        match r {
            Some(i) => i < rows@.len() && row_with_pid(rows@, pid) == Some(i as int),
            None => row_with_pid(rows@, pid) is None,
        },
{
    let mut i: usize = 0;
    while i < rows.len()
        invariant
            i <= rows@.len(),
            row_with_pid(rows@.take(i as int), pid) is None,
        decreases rows@.len() - i,
    {
        assert(rows@.take(i + 1).drop_last() == rows@.take(i as int));
        assert(rows@.take(i + 1).last() == rows@[i as int]);
        if rows[i].pid == pid {
            proof {
                lemma_row_with_pid_prefix(rows@, pid, i + 1);
            }
            return Some(i);
        }
        i = i + 1;
    }
    assert(rows@.take(rows@.len() as int) == rows@);
    None
}

/// The name a pid is shown by: its process's name, or `-` when it is not
/// among the shown processes.
pub open spec fn holder_name(rows: Seq<ProcessRow>, pid: u32) -> Seq<char> {
    match row_with_pid(rows, pid) {
        Some(i) => rows[i].name@,
        None => "-"@,
    }
}

/// A port list row as text.
pub struct PortCells {
    pub address: String,
    pub protocol: String,
    pub state: String,
    pub pids: String,
    pub names: String,
}

/// The cells of a socket's row: `ip:port`, the protocol, the state, the
/// holding pids and their process names, each list joined by `, `.
pub open spec fn spec_port_cells(p: PortInfo, rows: Seq<ProcessRow>) -> (
    Seq<char>,
    Seq<char>,
    Seq<char>,
    Seq<char>,
    Seq<char>,
) {
    (
        p.local_ip@ + ":"@ + spec_decimal(p.local_port as nat),
        spec_protocol_label(p.protocol),
        p.state@,
        spec_join(p.pids@.map_values(|pid: u32| spec_decimal(pid as nat)), ", "@),
        spec_join(p.pids@.map_values(|pid: u32| holder_name(rows, pid)), ", "@),
    )
}

fn join_step(out: &mut String, i: usize, part: &str)
    ensures
        final(out)@ == if i > 0 {
            old(out)@ + ", "@ + part@
        } else {
            old(out)@ + part@
        },
{
    if i > 0 {
        out.append(", ");
    }
    out.append(part);
}

/// The cells of a socket's row.
pub fn port_cells(p: &PortInfo, rows: &Vec<ProcessRow>) -> (c: PortCells)
    ensures
        (c.address@, c.protocol@, c.state@, c.pids@, c.names@) == spec_port_cells(*p, rows@),
{
    let ghost pid_texts = p.pids@.map_values(|pid: u32| spec_decimal(pid as nat));
    let ghost name_texts = p.pids@.map_values(|pid: u32| holder_name(rows@, pid));
    let mut pids = String::new();
    let mut names = String::new();
    let mut i: usize = 0;
    while i < p.pids.len()
        invariant
            i <= p.pids@.len(),
            pid_texts == p.pids@.map_values(|pid: u32| spec_decimal(pid as nat)),
            name_texts == p.pids@.map_values(|pid: u32| holder_name(rows@, pid)),
            pids@ == spec_join(pid_texts.take(i as int), ", "@),
            names@ == spec_join(name_texts.take(i as int), ", "@),
        decreases p.pids@.len() - i,
    {
        let pid = p.pids[i];
        assert(pid_texts.take(i + 1).drop_last() == pid_texts.take(i as int));
        assert(name_texts.take(i + 1).drop_last() == name_texts.take(i as int));
        assert(i == 0 ==> pid_texts.take(i as int).len() == 0);
        join_step(&mut pids, i, decimal(pid as u64).as_str());
        proof {
            lemma_row_with_pid_range(rows@, pid);
        }
        match find_pid(rows, pid) {
            Some(k) => join_step(&mut names, i, rows[k].name.as_str()),
            None => join_step(&mut names, i, "-"),
        }
        assert(pids@ == spec_join(pid_texts.take(i + 1), ", "@));
        assert(names@ == spec_join(name_texts.take(i + 1), ", "@));
        i = i + 1;
    }
    assert(pid_texts.take(p.pids@.len() as int) == pid_texts);
    assert(name_texts.take(p.pids@.len() as int) == name_texts);
    let address = copy_str(p.local_ip.as_str()).concat(":").concat(
        decimal(p.local_port as u64).as_str(),
    );
    let protocol = match p.protocol {
        Protocol::Tcp => copy_str("TCP"),
        Protocol::Udp => copy_str("UDP"),
    };
    PortCells { address, protocol, state: copy_str(p.state.as_str()), pids, names }
}

/// A protocol as a process's details name it.
pub open spec fn spec_protocol_name(p: Protocol) -> Seq<char> {
    match p {
        Protocol::Tcp => "Tcp"@,
        Protocol::Udp => "Udp"@,
    }
}

/// The ports a process holds, as its details show them: `port/protocol`
/// joined by `, `, or `-` when it holds none.
pub open spec fn spec_open_ports_text(ports: Seq<PortInfo>) -> Seq<char> {
    if ports.len() == 0 {
        "-"@
    } else {
        spec_join(
            ports.map_values(
                |p: PortInfo| spec_decimal(p.local_port as nat) + "/"@ + spec_protocol_name(p.protocol),
            ),
            ", "@,
        )
    }
}

/// The open ports line of a process's details.
pub fn open_ports_text(ports: &Vec<PortInfo>) -> (t: String)
    ensures
        t@ == spec_open_ports_text(ports@),
{
    if ports.len() == 0 {
        return copy_str("-");
    }
    let ghost texts = ports@.map_values(
        |p: PortInfo| spec_decimal(p.local_port as nat) + "/"@ + spec_protocol_name(p.protocol),
    );
    let mut out = String::new();
    let mut i: usize = 0;
    while i < ports.len()
        invariant
            i <= ports@.len(),
            texts == ports@.map_values(
                |p: PortInfo| spec_decimal(p.local_port as nat) + "/"@ + spec_protocol_name(
                    p.protocol,
                ),
            ),
            out@ == spec_join(texts.take(i as int), ", "@),
        decreases ports@.len() - i,
    {
        let p = &ports[i];
        let one = decimal(p.local_port as u64).concat("/").concat(
            match p.protocol {
                Protocol::Tcp => "Tcp",
                Protocol::Udp => "Udp",
            },
        );
        assert(texts.take(i + 1).drop_last() == texts.take(i as int));
        assert(i == 0 ==> texts.take(i as int).len() == 0);
        join_step(&mut out, i, one.as_str());
        assert(out@ == spec_join(texts.take(i + 1), ", "@));
        i = i + 1;
    }
    assert(texts.take(ports@.len() as int) == texts);
    out
}

/// A parent pid as a process's details show it, `-` when there is none.
pub fn parent_text(parent: Option<u32>) -> (t: String)
    ensures
        t@ == match parent {
            Some(p) => spec_decimal(p as nat),
            None => "-"@,
        },
{
    match parent {
        Some(p) => decimal(p as u64),
        None => copy_str("-"),
    }
}

// ---------------------------------------------------------------------------
// Processes and workspaces
// ---------------------------------------------------------------------------

/// `n` copies of two spaces.
pub open spec fn indent(n: nat) -> Seq<char>
    decreases n,
{
    if n == 0 {
        seq![]
    } else {
        indent((n - 1) as nat) + "  "@
    }
}

/// A process's name in the tree: indented two spaces per level, and marked
/// as a child below the top level.
pub open spec fn spec_tree_label(depth: nat, name: Seq<char>) -> Seq<char> {
    indent(depth) + (if depth > 0 {
        "└─ "@
    } else {
        seq![]
    }) + name
}

/// The name cell of a process at `depth` in the tree.
pub fn tree_label(depth: usize, name: &str) -> (t: String)
    ensures
        t@ == spec_tree_label(depth as nat, name@),
{
    let mut out = String::new();
    let mut i: usize = 0;
    while i < depth
        invariant
            i <= depth,
            out@ == indent(i as nat),
        decreases depth - i,
    {
        out.append("  ");
        i = i + 1;
    }
    if depth > 0 {
        out.append("└─ ");
    } else {
        assert(out@ + Seq::<char>::empty() =~= out@);
    }
    out.append(name);
    out
}

/// A workspace item as its workspace lists it: `[TYPE] name`, the type in
/// capitals.
pub open spec fn spec_item_label(item: WorkspaceItem) -> Seq<char> {
    "["@ + match item.item_type {
        WorkspaceItemType::Process => "PROCESS"@,
        WorkspaceItemType::Service => "SERVICE"@,
        WorkspaceItemType::Container => "CONTAINER"@,
    } + "] "@ + item.item_name@
}

/// The line of a workspace item.
pub fn item_label(item: &WorkspaceItem) -> (t: String)
    ensures
        t@ == spec_item_label(*item),
{
    copy_str("[").concat(
        match item.item_type {
            WorkspaceItemType::Process => "PROCESS",
            WorkspaceItemType::Service => "SERVICE",
            WorkspaceItemType::Container => "CONTAINER",
        },
    ).concat("] ").concat(item.item_name.as_str())
}

/// The colour of a workspace item: processes cyan, services green,
/// containers blue.
pub fn item_tone(t: WorkspaceItemType) -> (c: Tone)
    ensures
        c == match t {
            WorkspaceItemType::Process => Tone::Cyan,
            WorkspaceItemType::Service => Tone::Green,
            WorkspaceItemType::Container => Tone::Blue,
        },
{
    match t {
        WorkspaceItemType::Process => Tone::Cyan,
        WorkspaceItemType::Service => Tone::Green,
        WorkspaceItemType::Container => Tone::Blue,
    }
}

/// The title of the log screen for logs titled `title`.
pub fn log_title(title: &str) -> (t: String)
    ensures
        t@ == " "@ + title@ + " Logs (L/R: Refresh, Esc: Back, Up/Down: Scroll) "@,
{
    copy_str(" ").concat(title).concat(" Logs (L/R: Refresh, Esc: Back, Up/Down: Scroll) ")
}

} // verus!
