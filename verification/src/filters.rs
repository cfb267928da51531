//! The search boxes: which rows of each list a query keeps.
//!
//! A query is compared in lower case; an empty query keeps every row.
//! Texts are lower-cased before they are searched, numbers are searched in
//! their decimal form.
use vstd::prelude::*;
use crate::docker::{ContainerInfo, ContainerInfoView, container_views};
use crate::ports::{PortInfo, PortInfoView, Protocol, port_views};
use crate::processes::ProcessRow;
use crate::services::{ServiceInfo, ServiceInfoView, service_views};
use crate::text::{contains, decimal, lowercase, spec_contains, spec_decimal, spec_lowercase};
use crate::workspaces::{WorkspaceInfo, WorkspaceInfoView, workspace_views};

verus! {

/// The elements of `s` that `keep` accepts, in order.
pub open spec fn kept<T>(s: Seq<T>, keep: spec_fn(T) -> bool) -> Seq<T>
    decreases s.len(),
{
    if s.len() == 0 {
        seq![]
    } else {
        kept(s.drop_last(), keep) + if keep(s.last()) {
            seq![s.last()]
        } else {
            seq![]
        }
    }
}

/// Keeping what every element passes keeps everything.
pub(crate) proof fn lemma_kept_all<T>(s: Seq<T>, keep: spec_fn(T) -> bool)
    requires
        forall|i: int| 0 <= i < s.len() ==> keep(#[trigger] s[i]),
    ensures
        kept(s, keep) == s,
    decreases s.len(),
{
    if s.len() > 0 {
        lemma_kept_all(s.drop_last(), keep);
        assert(keep(s[s.len() - 1]));
        assert(s.drop_last() + seq![s.last()] =~= s);
    }
}

/// The lower-cased `field` contains the (lower-cased) query `q`.
pub open spec fn hit(field: Seq<char>, q: Seq<char>) -> bool {
    spec_contains(spec_lowercase(field), q)
}

pub fn hits(field: &str, q: &str) -> (b: bool)
    ensures
        b == hit(field@, q@),
{
    let l = lowercase(field);
    contains(l.as_str(), q)
}

/// A service is kept when its name or description matches.
pub open spec fn service_kept(s: ServiceInfoView, query: Seq<char>) -> bool {
    let q = spec_lowercase(query);
    q.len() == 0 || hit(s.name, q) || hit(s.description, q)
}

/// A container is kept when its name or image matches.
pub open spec fn container_kept(c: ContainerInfoView, query: Seq<char>) -> bool {
    let q = spec_lowercase(query);
    q.len() == 0 || hit(c.name, q) || hit(c.image, q)
}

/// A workspace is kept when its name or description (none counting as
/// empty) matches.
pub open spec fn workspace_kept(w: WorkspaceInfoView, query: Seq<char>) -> bool {
    let q = spec_lowercase(query);
    q.len() == 0 || hit(w.name, q) || hit(
        match w.description {
            Some(d) => d,
            None => seq![],
        },
        q,
    )
}

/// The protocol's name in lower case.
pub open spec fn protocol_text(p: Protocol) -> Seq<char> {
    match p {
        Protocol::Tcp => "tcp"@,
        Protocol::Udp => "udp"@,
    }
}

/// A socket is kept when its local port number or its protocol's name matches.
pub open spec fn port_kept(p: PortInfoView, query: Seq<char>) -> bool {
    let q = spec_lowercase(query);
    q.len() == 0 || spec_contains(spec_decimal(p.local_port as nat), q) || spec_contains(
        protocol_text(p.protocol),
        q,
    )
}

/// A process is kept when its name or its pid matches.
pub open spec fn process_kept(r: ProcessRow, query: Seq<char>) -> bool {
    let q = spec_lowercase(query);
    q.len() == 0 || hit(r.name@, q) || spec_contains(spec_decimal(r.pid as nat), q)
}

/// The services the query keeps, in order.
pub fn filter_services(v: &Vec<ServiceInfo>, query: &str) -> (out: Vec<ServiceInfo>)
    ensures
        service_views(out@) == kept(service_views(v@), |s: ServiceInfoView| service_kept(s, query@)),
        query@.len() == 0 ==> service_views(out@) == service_views(v@),
{
    let q = lowercase(query);
    let ghost f = |s: ServiceInfoView| service_kept(s, query@);
    let ghost all = service_views(v@);
    let mut out: Vec<ServiceInfo> = Vec::new();
    let mut i: usize = 0;
    while i < v.len()
        invariant
            i <= v@.len(),
            q@ == spec_lowercase(query@),
            all == service_views(v@),
            f == (|s: ServiceInfoView| service_kept(s, query@)),
            service_views(out@) == kept(all.take(i as int), f),
        decreases v@.len() - i,
    {
        let s = &v[i];
        let keep = q.as_str().unicode_len() == 0 || hits(s.name.as_str(), q.as_str()) || hits(
            s.description.as_str(),
            q.as_str(),
        );
        assert(all.take(i + 1).drop_last() == all.take(i as int));
        assert(all.take(i + 1).last() == s@);
        let ghost prev = out@;
        if keep {
            out.push(s.duplicate());
            assert(service_views(out@) =~= service_views(prev) + seq![s@]);
        } else {
            assert(service_views(out@) =~= service_views(prev) + Seq::<ServiceInfoView>::empty());
        }
        i = i + 1;
    }
    assert(all.take(v@.len() as int) == all);
    proof {
        if query@.len() == 0 {
            lemma_kept_all(all, f);
        }
    }
    out
}

/// The containers the query keeps, in order.
pub fn filter_containers(v: &Vec<ContainerInfo>, query: &str) -> (out: Vec<ContainerInfo>)
    ensures
        container_views(out@) == kept(
            container_views(v@),
            |c: ContainerInfoView| container_kept(c, query@),
        ),
        query@.len() == 0 ==> container_views(out@) == container_views(v@),
{
    let q = lowercase(query);
    let ghost f = |c: ContainerInfoView| container_kept(c, query@);
    let ghost all = container_views(v@);
    let mut out: Vec<ContainerInfo> = Vec::new();
    let mut i: usize = 0;
    while i < v.len()
        invariant
            i <= v@.len(),
            q@ == spec_lowercase(query@),
            all == container_views(v@),
            f == (|c: ContainerInfoView| container_kept(c, query@)),
            container_views(out@) == kept(all.take(i as int), f),
        decreases v@.len() - i,
    {
        let c = &v[i];
        let keep = q.as_str().unicode_len() == 0 || hits(c.name.as_str(), q.as_str()) || hits(
            c.image.as_str(),
            q.as_str(),
        );
        assert(all.take(i + 1).drop_last() == all.take(i as int));
        assert(all.take(i + 1).last() == c@);
        let ghost prev = out@;
        if keep {
            out.push(c.duplicate());
            assert(container_views(out@) =~= container_views(prev) + seq![c@]);
        } else {
            assert(container_views(out@) =~= container_views(prev) + Seq::<
                ContainerInfoView,
            >::empty());
        }
        i = i + 1;
    }
    assert(all.take(v@.len() as int) == all);
    proof {
        if query@.len() == 0 {
            lemma_kept_all(all, f);
        }
    }
    out
}

/// The workspaces the query keeps, in order.
pub fn filter_workspaces(v: &Vec<WorkspaceInfo>, query: &str) -> (out: Vec<WorkspaceInfo>)
    ensures
        workspace_views(out@) == kept(
            workspace_views(v@),
            |w: WorkspaceInfoView| workspace_kept(w, query@),
        ),
        query@.len() == 0 ==> workspace_views(out@) == workspace_views(v@),
{
    let q = lowercase(query);
    let ghost f = |w: WorkspaceInfoView| workspace_kept(w, query@);
    let ghost all = workspace_views(v@);
    let mut out: Vec<WorkspaceInfo> = Vec::new();
    let mut i: usize = 0;
    while i < v.len()
        invariant
            i <= v@.len(),
            q@ == spec_lowercase(query@),
            all == workspace_views(v@),
            f == (|w: WorkspaceInfoView| workspace_kept(w, query@)),
            workspace_views(out@) == kept(all.take(i as int), f),
        decreases v@.len() - i,
    {
        let w = &v[i];
        let desc_hit = match &w.description {
            Some(d) => hits(d.as_str(), q.as_str()),
            None => hits("", q.as_str()),
        };
        proof {
            if w.description is None {
                reveal_strlit("");
                assert(""@ =~= Seq::<char>::empty());
            }
        }
        let keep = q.as_str().unicode_len() == 0 || hits(w.name.as_str(), q.as_str()) || desc_hit;
        assert(all.take(i + 1).drop_last() == all.take(i as int));
        assert(all.take(i + 1).last() == w@);
        let ghost prev = out@;
        if keep {
            out.push(w.duplicate());
            assert(workspace_views(out@) =~= workspace_views(prev) + seq![w@]);
        } else {
            assert(workspace_views(out@) =~= workspace_views(prev) + Seq::<
                WorkspaceInfoView,
            >::empty());
        }
        i = i + 1;
    }
    assert(all.take(v@.len() as int) == all);
    proof {
        if query@.len() == 0 {
            lemma_kept_all(all, f);
        }
    }
    out
}

/// The sockets the query keeps, in order.
pub fn filter_ports(v: &Vec<PortInfo>, query: &str) -> (out: Vec<PortInfo>)
    ensures
        port_views(out@) == kept(port_views(v@), |p: PortInfoView| port_kept(p, query@)),
        query@.len() == 0 ==> port_views(out@) == port_views(v@),
{
    let q = lowercase(query);
    let ghost f = |p: PortInfoView| port_kept(p, query@);
    let ghost all = port_views(v@);
    let mut out: Vec<PortInfo> = Vec::new();
    let mut i: usize = 0;
    while i < v.len()
        invariant
            i <= v@.len(),
            q@ == spec_lowercase(query@),
            all == port_views(v@),
            f == (|p: PortInfoView| port_kept(p, query@)),
            port_views(out@) == kept(all.take(i as int), f),
        decreases v@.len() - i,
    {
        let p = &v[i];
        let port_text = decimal(p.local_port as u64);
        let proto = match p.protocol {
            Protocol::Tcp => "tcp",
            Protocol::Udp => "udp",
        };
        let keep = q.as_str().unicode_len() == 0 || contains(port_text.as_str(), q.as_str()) || contains(
            proto,
            q.as_str(),
        );
        assert(all.take(i + 1).drop_last() == all.take(i as int));
        assert(all.take(i + 1).last() == p@);
        let ghost prev = out@;
        if keep {
            out.push(p.duplicate());
            assert(port_views(out@) =~= port_views(prev) + seq![p@]);
        } else {
            assert(port_views(out@) =~= port_views(prev) + Seq::<PortInfoView>::empty());
        }
        i = i + 1;
    }
    assert(all.take(v@.len() as int) == all);
    proof {
        if query@.len() == 0 {
            lemma_kept_all(all, f);
        }
    }
    out
}

/// The positions of the processes the query keeps, in order.
pub fn filter_processes(rows: &Vec<ProcessRow>, query: &str) -> (out: Vec<usize>)
    ensures
        out@.len() <= rows@.len(),
        forall|a: int| 0 <= a < out@.len() ==> out@[a] < rows@.len(),
        forall|a: int, b: int| 0 <= a < b < out@.len() ==> out@[a] < out@[b],
        forall|i: int|
            0 <= i < rows@.len() ==> (out@.contains(i as usize) <==> process_kept(
                #[trigger] rows@[i],
                query@,
            )),
        query@.len() == 0 ==> forall|i: int| 0 <= i < rows@.len() ==> out@.contains(#[trigger] (i as usize)),
{
    let q = lowercase(query);
    let mut out: Vec<usize> = Vec::new();
    let mut i: usize = 0;
    while i < rows.len()
        invariant
            i <= rows@.len(),
            q@ == spec_lowercase(query@),
            out@.len() <= i,
            forall|a: int| 0 <= a < out@.len() ==> out@[a] < i,
            forall|a: int, b: int| 0 <= a < b < out@.len() ==> out@[a] < out@[b],
            forall|j: int| 0 <= j < i ==> (out@.contains(j as usize) <==> process_kept(
                #[trigger] rows@[j],
                query@,
            )),
        decreases rows@.len() - i,
    {
        let r = &rows[i];
        let pid_text = decimal(r.pid as u64);
        let keep = q.as_str().unicode_len() == 0 || hits(r.name.as_str(), q.as_str()) || contains(
            pid_text.as_str(),
            q.as_str(),
        );
        let ghost prev = out@;
        if keep {
            out.push(i);
        }
        assert forall|j: int| 0 <= j < i + 1 implies (out@.contains(j as usize) <==> process_kept(
            #[trigger] rows@[j],
            query@,
        )) by {
            if j < i {
                if prev.contains(j as usize) {
                    let a = choose|a: int| 0 <= a < prev.len() && prev[a] == j as usize;
                    assert(out@[a] == j as usize);
                }
                if out@.contains(j as usize) {
                    let a = choose|a: int| 0 <= a < out@.len() && out@[a] == j as usize;
                    if a < prev.len() {
                        assert(prev[a] == j as usize);
                    }
                }
            } else {
                if keep {
                    assert(out@[prev.len() as int] == i);
                } else {
                    if out@.contains(j as usize) {
                        let a = choose|a: int| 0 <= a < out@.len() && out@[a] == j as usize;
                        assert(prev[a] < i);
                    }
                }
            }
        }
        i = i + 1;
    }
    proof {
        if query@.len() == 0 {
            assert forall|j: int| 0 <= j < rows@.len() implies out@.contains(
                #[trigger] (j as usize),
            ) by {
                assert(process_kept(rows@[j], query@));
            }
        }
    }
    out
}


// ---------------------------------------------------------------------------
// Laws
// ---------------------------------------------------------------------------

/// An element is kept exactly when it is in the list and passes.
proof fn lemma_kept_contains<T>(s: Seq<T>, keep: spec_fn(T) -> bool)
    ensures
        forall|x: T| #[trigger] kept(s, keep).contains(x) <==> (s.contains(x) && keep(x)),
    decreases s.len(),
{
    if s.len() > 0 {
        let d = s.drop_last();
        lemma_kept_contains(d, keep);
        let tail = if keep(s.last()) {
            seq![s.last()]
        } else {
            Seq::<T>::empty()
        };
        assert(kept(s, keep) == kept(d, keep) + tail);
        assert forall|x: T| #[trigger] kept(s, keep).contains(x) <==> (s.contains(x) && keep(x)) by {
            if kept(s, keep).contains(x) {
                let j = choose|j: int| 0 <= j < kept(s, keep).len() && kept(s, keep)[j] == x;
                if j < kept(d, keep).len() {
                    assert(kept(d, keep)[j] == x);
                    assert(kept(d, keep).contains(x));
                    let k = choose|k: int| 0 <= k < d.len() && d[k] == x;
                    assert(d[k] == s[k]);
                    assert(s[k] == x);
                } else {
                    assert(tail.len() > 0);
                    assert(tail[j - kept(d, keep).len()] == x);
                    assert(s[s.len() - 1] == x);
                }
            }
            if s.contains(x) && keep(x) {
                let k = choose|k: int| 0 <= k < s.len() && s[k] == x;
                if k < s.len() - 1 {
                    assert(d[k] == x);
                    assert(d.contains(x));
                    assert(kept(d, keep).contains(x));
                    let j = choose|j: int| 0 <= j < kept(d, keep).len() && kept(d, keep)[j] == x;
                    assert(kept(s, keep)[j] == kept(d, keep)[j]);
                    assert(kept(s, keep)[j] == x);
                } else {
                    assert(kept(s, keep)[kept(d, keep).len() as int] == x);
                }
            }
        }
    }
}

/// The container search keeps exactly the containers whose lower-cased name
/// or lower-cased image contains the lower-cased query (all of them for an
/// empty query).
pub proof fn lemma_container_search(cs: Seq<ContainerInfoView>, query: Seq<char>)
    ensures
        ({
            let q = spec_lowercase(query);
            let out = kept(cs, |c: ContainerInfoView| container_kept(c, query));
            forall|c: ContainerInfoView|
                #[trigger] out.contains(c) <==> cs.contains(c) && (q.len() == 0 || spec_contains(
                    spec_lowercase(c.name),
                    q,
                ) || spec_contains(spec_lowercase(c.image), q))
        }),
{
    lemma_kept_contains(cs, |c: ContainerInfoView| container_kept(c, query));
}

/// The service search keeps exactly the services whose lower-cased name or
/// lower-cased description contains the lower-cased query (all of them for
/// an empty query).
pub proof fn lemma_service_search(ss: Seq<ServiceInfoView>, query: Seq<char>)
    ensures
        ({
            let q = spec_lowercase(query);
            let out = kept(ss, |s: ServiceInfoView| service_kept(s, query));
            forall|s: ServiceInfoView|
                #[trigger] out.contains(s) <==> ss.contains(s) && (q.len() == 0 || spec_contains(
                    spec_lowercase(s.name),
                    q,
                ) || spec_contains(spec_lowercase(s.description), q))
        }),
{
    lemma_kept_contains(ss, |s: ServiceInfoView| service_kept(s, query));
}

/// The workspace search keeps exactly the workspaces whose lower-cased name
/// or lower-cased description (none counting as empty) contains the
/// lower-cased query (all of them for an empty query).
pub proof fn lemma_workspace_search(ws: Seq<WorkspaceInfoView>, query: Seq<char>)
    ensures
        ({
            let q = spec_lowercase(query);
            let out = kept(ws, |w: WorkspaceInfoView| workspace_kept(w, query));
            forall|w: WorkspaceInfoView|
                #[trigger] out.contains(w) <==> ws.contains(w) && (q.len() == 0 || spec_contains(
                    spec_lowercase(w.name),
                    q,
                ) || (w.description matches Some(d) && spec_contains(spec_lowercase(d), q)) || (
                w.description is None && spec_contains(spec_lowercase(seq![]), q)))
        }),
{
    lemma_kept_contains(ws, |w: WorkspaceInfoView| workspace_kept(w, query));
}

/// The port search keeps exactly the sockets whose local port number, in
/// decimal, or protocol name (`tcp`, `udp`) contains the lower-cased query
/// (all of them for an empty query).
pub proof fn lemma_port_search(ps: Seq<PortInfoView>, query: Seq<char>)
    ensures
        ({
            let q = spec_lowercase(query);
            let out = kept(ps, |p: PortInfoView| port_kept(p, query));
            forall|p: PortInfoView|
                #[trigger] out.contains(p) <==> ps.contains(p) && (q.len() == 0 || spec_contains(
                    spec_decimal(p.local_port as nat),
                    q,
                ) || spec_contains(
                    if p.protocol == Protocol::Tcp {
                        "tcp"@
                    } else {
                        "udp"@
                    },
                    q,
                ))
        }),
{
    lemma_kept_contains(ps, |p: PortInfoView| port_kept(p, query));
}

/// The process search keeps exactly the processes whose lower-cased name or
/// decimal pid contains the lower-cased query (all of them for an empty
/// query).
pub proof fn lemma_process_search(r: ProcessRow, query: Seq<char>)
    ensures
        process_kept(r, query) <==> ({
            let q = spec_lowercase(query);
            q.len() == 0 || spec_contains(spec_lowercase(r.name@), q) || spec_contains(
                spec_decimal(r.pid as nat),
                q,
            )
        }),
{
}

} // verus!
