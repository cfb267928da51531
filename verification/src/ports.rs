//! Network sockets and the processes holding them.
use vstd::prelude::*;
use crate::text::copy_str;

verus! {

/// The transport protocol of a socket.
#[derive(Debug, Clone, Copy, PartialEq, Eq, Structural)]
pub enum Protocol {
    Tcp,
    Udp,
}

/// One socket: its addresses (as text), its state and the processes holding it.
#[derive(Debug, Clone)]
pub struct PortInfo {
    pub protocol: Protocol,
    pub local_ip: String,
    pub local_port: u16,
    pub remote_ip: Option<String>,
    pub remote_port: Option<u16>,
    pub state: String,
    pub pids: Vec<u32>,
}

/// A [`PortInfo`] taken by its characters.
pub struct PortInfoView {
    pub protocol: Protocol,
    pub local_ip: Seq<char>,
    pub local_port: u16,
    pub remote_ip: Option<Seq<char>>,
    pub remote_port: Option<u16>,
    pub state: Seq<char>,
    pub pids: Seq<u32>,
}

impl View for PortInfo {
    type V = PortInfoView;

    open spec fn view(&self) -> PortInfoView {
        PortInfoView {
            protocol: self.protocol,
            local_ip: self.local_ip@,
            local_port: self.local_port,
            remote_ip: match self.remote_ip {
                Some(s) => Some(s@),
                None => None,
            },
            remote_port: self.remote_port,
            state: self.state@,
            pids: self.pids@,
        }
    }
}

/// The views of a list of sockets.
pub open spec fn port_views(v: Seq<PortInfo>) -> Seq<PortInfoView> {
    v.map_values(|p: PortInfo| p@)
}

impl PortInfo {
    /// A copy of this socket.
    pub fn duplicate(&self) -> (c: PortInfo)
        ensures
            c@ == self@,
    {
        let mut pids: Vec<u32> = Vec::new();
        let mut i: usize = 0;
        while i < self.pids.len()
            invariant
                i <= self.pids@.len(),
                pids@ == self.pids@.take(i as int),
            decreases self.pids@.len() - i,
        {
            pids.push(self.pids[i]);
            assert(pids@ =~= self.pids@.take(i + 1));
            i = i + 1;
        }
        assert(self.pids@.take(self.pids@.len() as int) == self.pids@);
        PortInfo {
            protocol: self.protocol,
            local_ip: copy_str(self.local_ip.as_str()),
            local_port: self.local_port,
            remote_ip: match &self.remote_ip {
                Some(s) => Some(copy_str(s.as_str())),
                None => None,
            },
            remote_port: self.remote_port,
            state: copy_str(self.state.as_str()),
            pids,
        }
    }
}

/// The sockets of `ports` that `pid` holds, in order.
pub open spec fn ports_held_by(ports: Seq<PortInfoView>, pid: u32) -> Seq<PortInfoView>
    decreases ports.len(),
{
    if ports.len() == 0 {
        seq![]
    } else {
        ports_held_by(ports.drop_last(), pid) + if ports.last().pids.contains(pid) {
            seq![ports.last()]
        } else {
            seq![]
        }
    }
}

fn holds(pids: &Vec<u32>, pid: u32) -> (b: bool)
    ensures
        b == pids@.contains(pid),
{
    let mut i: usize = 0;
    while i < pids.len()
        invariant
            i <= pids@.len(),
            forall|k: int| 0 <= k < i ==> pids@[k] != pid,
        decreases pids@.len() - i,
    {
        if pids[i] == pid {
            assert(pids@[i as int] == pid);
            return true;
        }
        i = i + 1;
    }
    false
}

/// The sockets known to the application.
pub struct PortManager {
    ports: Vec<PortInfo>,
}

impl PortManager {
    /// The sockets as last listed.
    pub closed spec fn spec_ports(&self) -> Seq<PortInfoView> {
        port_views(self.ports@)
    }

    pub fn new() -> (m: PortManager)
        ensures
            m.spec_ports() == Seq::<PortInfoView>::empty(),
    {
        let m = PortManager { ports: Vec::new() };
        assert(m.spec_ports() =~= Seq::<PortInfoView>::empty());
        m
    }

    /// Takes in the sockets just listed.
    pub fn refresh(&mut self, ports: Vec<PortInfo>)
        ensures
            final(self).spec_ports() == port_views(ports@),
    {
        self.ports = ports;
    }

    /// The sockets as last listed.
    pub fn get_ports(&self) -> (v: Vec<PortInfo>)
        ensures
            port_views(v@) == self.spec_ports(),
    {
        let mut c: Vec<PortInfo> = Vec::new();
        let mut i: usize = 0;
        while i < self.ports.len()
            invariant
                i <= self.ports@.len(),
                c@.len() == i,
                forall|k: int| 0 <= k < i ==> (#[trigger] c@[k])@ == self.ports@[k]@,
            decreases self.ports@.len() - i,
        {
            c.push(self.ports[i].duplicate());
            i = i + 1;
        }
        assert(port_views(c@) =~= port_views(self.ports@));
        c
    }

    /// The sockets that process `pid` holds, in order.
    pub fn get_ports_for_pid(&self, pid: u32) -> (v: Vec<PortInfo>)
        ensures
            port_views(v@) == ports_held_by(self.spec_ports(), pid),
    {
        let ghost all = port_views(self.ports@);
        let mut c: Vec<PortInfo> = Vec::new();
        let mut i: usize = 0;
        while i < self.ports.len()
            invariant
                i <= self.ports@.len(),
                all == port_views(self.ports@),
                port_views(c@) == ports_held_by(all.take(i as int), pid),
            decreases self.ports@.len() - i,
        {
            let ghost prev = c@;
            assert(all.take(i + 1).drop_last() == all.take(i as int));
            assert(all.take(i + 1).last() == self.ports@[i as int]@);
            if holds(&self.ports[i].pids, pid) {
                c.push(self.ports[i].duplicate());
                assert(port_views(c@) =~= port_views(prev) + seq![self.ports@[i as int]@]);
            } else {
                assert(port_views(c@) =~= port_views(prev) + Seq::<PortInfoView>::empty());
            }
            i = i + 1;
        }
        assert(all.take(all.len() as int) == all);
        c
    }
}

/// Every socket reported for `pid` is held by `pid`, and every socket of the
/// listing held by `pid` is reported.
pub proof fn lemma_ports_held_by(ports: Seq<PortInfoView>, pid: u32)
    ensures
        forall|k: int|
            0 <= k < ports_held_by(ports, pid).len() ==> (#[trigger] ports_held_by(ports, pid)[k]).pids.contains(
                pid,
            ),
        forall|k: int|
            0 <= k < ports.len() && (#[trigger] ports[k]).pids.contains(pid) ==> ports_held_by(
                ports,
                pid,
            ).contains(ports[k]),
    decreases ports.len(),
{
    if ports.len() > 0 {
        lemma_ports_held_by(ports.drop_last(), pid);
        let prev = ports_held_by(ports.drop_last(), pid);
        let cur = ports_held_by(ports, pid);
        assert forall|k: int|
            0 <= k < cur.len() implies (#[trigger] cur[k]).pids.contains(pid) by {
            if k < prev.len() {
                assert(cur[k] == prev[k]);
            }
        }
        assert forall|k: int|
            0 <= k < ports.len() && (#[trigger] ports[k]).pids.contains(pid) implies cur.contains(
                ports[k],
            ) by {
            if k < ports.len() - 1 {
                assert(ports.drop_last()[k] == ports[k]);
                let j = choose|j: int| 0 <= j < prev.len() && prev[j] == ports[k];
                assert(cur[j] == prev[j]);
            } else {
                assert(cur[cur.len() - 1] == ports.last());
            }
        }
    }
}

} // verus!
