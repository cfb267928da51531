//! Docker containers: how the daemon's listing becomes the rows shown, and
//! how the daemon's answers to actions and log requests are settled.
use vstd::prelude::*;
use crate::errors::{AppError, AppErrorView, AppResult, platform_error, spec_with_context};
use crate::text::{
    chars_of, copy_str, decimal, join_from, lines, lowercase, remove_all, spec_decimal,
    spec_join, spec_lines, spec_lowercase, spec_remove_all, string_from_chars, views, contains,
    spec_contains,
};

verus! {

/// The state of a container.
#[derive(Debug, Clone, Copy, PartialEq, Eq, Structural)]
pub enum ContainerStatus {
    Running,
    Stopped,
    Paused,
    Restarting,
    Dead,
    Created,
    Exited,
    Removing,
    Unknown,
}

/// One container as the container list shows it.
#[derive(Debug, Clone)]
pub struct ContainerInfo {
    pub id: String,
    pub name: String,
    pub image: String,
    pub status: ContainerStatus,
    pub state_string: String,
    pub ports: String,
}

/// A [`ContainerInfo`] taken by its characters.
pub struct ContainerInfoView {
    pub id: Seq<char>,
    pub name: Seq<char>,
    pub image: Seq<char>,
    pub status: ContainerStatus,
    pub state_string: Seq<char>,
    pub ports: Seq<char>,
}

impl View for ContainerInfo {
    type V = ContainerInfoView;

    open spec fn view(&self) -> ContainerInfoView {
        ContainerInfoView {
            id: self.id@,
            name: self.name@,
            image: self.image@,
            status: self.status,
            state_string: self.state_string@,
            ports: self.ports@,
        }
    }
}

/// The views of a list of containers.
pub open spec fn container_views(v: Seq<ContainerInfo>) -> Seq<ContainerInfoView> {
    v.map_values(|c: ContainerInfo| c@)
}

impl ContainerInfo {
    /// A copy of this container's row.
    pub fn duplicate(&self) -> (c: ContainerInfo)
        ensures
            c@ == self@,
    {
        ContainerInfo {
            id: copy_str(self.id.as_str()),
            name: copy_str(self.name.as_str()),
            image: copy_str(self.image.as_str()),
            status: self.status,
            state_string: copy_str(self.state_string.as_str()),
            ports: copy_str(self.ports.as_str()),
        }
    }
}

/// A port mapping as the daemon reports it.
pub struct PortMapping {
    pub ip: Option<String>,
    pub public_port: Option<u16>,
    pub private_port: u16,
    /// The protocol's name as the daemon's client spells it (`Tcp`, `Udp`, ...).
    pub typ: Option<String>,
}

/// A container as the daemon lists it. `state` is the state's name as the
/// daemon's client spells it (`Running`, `Exited`, ...); `status` is the
/// daemon's own description (`Up 3 hours`).
pub struct ContainerSummary {
    pub id: Option<String>,
    pub names: Option<Vec<String>>,
    pub image: Option<String>,
    pub state: Option<String>,
    pub status: Option<String>,
    pub ports: Option<Vec<PortMapping>>,
}

/// The text of an optional value, or nothing.
pub open spec fn text_or_empty(o: Option<String>) -> Seq<char> {
    match o {
        Some(s) => s@,
        None => seq![],
    }
}

/// The status named in a lower-cased state: the first of running, exited,
/// paused, restarting, dead, created, removing that it contains.
pub open spec fn status_of_state(state: Seq<char>) -> ContainerStatus {
    if spec_contains(state, "running"@) {
        ContainerStatus::Running
    } else if spec_contains(state, "exited"@) {
        ContainerStatus::Exited
    } else if spec_contains(state, "paused"@) {
        ContainerStatus::Paused
    } else if spec_contains(state, "restarting"@) {
        ContainerStatus::Restarting
    } else if spec_contains(state, "dead"@) {
        ContainerStatus::Dead
    } else if spec_contains(state, "created"@) {
        ContainerStatus::Created
    } else if spec_contains(state, "removing"@) {
        ContainerStatus::Removing
    } else {
        ContainerStatus::Unknown
    }
}

/// A port mapping as shown: `private/proto` when unpublished, else
/// `ip:public->private/proto`, the protocol in lower case.
pub open spec fn port_text(p: PortMapping) -> Seq<char> {
    let typ = match p.typ {
        Some(t) => spec_lowercase(t@),
        None => seq![],
    };
    match p.public_port {
        None => spec_decimal(p.private_port as nat) + "/"@ + typ,
        Some(public) => text_or_empty(p.ip) + ":"@ + spec_decimal(public as nat) + "->"@
            + spec_decimal(p.private_port as nat) + "/"@ + typ,
    }
}

/// The row shown for a listed container: the first twelve characters of its
/// id, its names joined by `, ` with every `/` removed, its status read
/// from its lower-cased state, and its port mappings joined by `, `.
pub open spec fn container_row(c: ContainerSummary) -> ContainerInfoView {
    let id = text_or_empty(c.id);
    let names = match c.names {
        Some(v) => views(v@),
        None => seq![],
    };
    let state = match c.state {
        Some(s) => spec_lowercase(s@),
        None => seq![],
    };
    let ports = match c.ports {
        Some(v) => v@.map_values(|p: PortMapping| port_text(p)),
        None => seq![],
    };
    ContainerInfoView {
        id: if id.len() > 12 {
            id.take(12)
        } else {
            id
        },
        name: spec_remove_all(spec_join(names, ", "@), "/"@),
        image: text_or_empty(c.image),
        status: status_of_state(state),
        state_string: text_or_empty(c.status),
        ports: spec_join(ports, ", "@),
    }
}

fn text_of(o: &Option<String>) -> (s: String)
    ensures
        s@ == text_or_empty(*o),
{
    match o {
        Some(s) => copy_str(s.as_str()),
        None => String::new(),
    }
}

fn status_from(state: &str) -> (st: ContainerStatus)
    ensures
        st == status_of_state(state@),
{
    if contains(state, "running") {
        ContainerStatus::Running
    } else if contains(state, "exited") {
        ContainerStatus::Exited
    } else if contains(state, "paused") {
        ContainerStatus::Paused
    } else if contains(state, "restarting") {
        ContainerStatus::Restarting
    } else if contains(state, "dead") {
        ContainerStatus::Dead
    } else if contains(state, "created") {
        ContainerStatus::Created
    } else if contains(state, "removing") {
        ContainerStatus::Removing
    } else {
        ContainerStatus::Unknown
    }
}

fn port_string(p: &PortMapping) -> (s: String)
    ensures
        s@ == port_text(*p),
{
    let typ = match &p.typ {
        Some(t) => lowercase(t.as_str()),
        None => String::new(),
    };
    match p.public_port {
        None => decimal(p.private_port as u64).concat("/").concat(typ.as_str()),
        Some(public) => {
            let s = text_of(&p.ip).concat(":").concat(decimal(public as u64).as_str()).concat(
                "->",
            ).concat(decimal(p.private_port as u64).as_str()).concat("/").concat(typ.as_str());
            s
        },
    }
}

/// The row shown for a container the daemon listed.
pub fn container_info(c: &ContainerSummary) -> (info: ContainerInfo)
    ensures
        info@ == container_row(*c),
{
    let id_full = text_of(&c.id);
    let idc = chars_of(id_full.as_str());
    let id = if idc.len() > 12 {
        string_from_chars(&idc, 0, 12)
    } else {
        string_from_chars(&idc, 0, idc.len())
    };
    assert(idc@.subrange(0, idc@.len() as int) == idc@);
    let joined = match &c.names {
        Some(v) => join_from(v, 0, ", "),
        None => String::new(),
    };
    proof {
        match &c.names {
            Some(v) => {
                assert(views(v@).subrange(0, v@.len() as int) == views(v@));
            },
            None => {
                assert(joined@ == spec_join(seq![], ", "@));
            },
        }
        reveal_strlit("/");
    }
    let name = remove_all(joined.as_str(), "/");
    let state = match &c.state {
        Some(s) => lowercase(s.as_str()),
        None => String::new(),
    };
    let status = status_from(state.as_str());
    let mut port_texts: Vec<String> = Vec::new();
    match &c.ports {
        Some(v) => {
            let mut i: usize = 0;
            while i < v.len()
                invariant
                    i <= v@.len(),
                    views(port_texts@) == v@.take(i as int).map_values(|p: PortMapping| port_text(p)),
                decreases v@.len() - i,
            {
                let ghost prev = port_texts@;
                port_texts.push(port_string(&v[i]));
                assert(views(port_texts@) =~= views(prev).push(port_texts@.last()@));
                assert(v@.take(i + 1) == v@.take(i as int).push(v@[i as int]));
                assert(views(port_texts@) =~= v@.take(i + 1).map_values(|p: PortMapping| port_text(p)));
                i = i + 1;
            }
            assert(v@.take(v@.len() as int) == v@);
        },
        None => {
            assert(views(port_texts@) =~= Seq::<Seq<char>>::empty());
        },
    }
    let ports = join_from(&port_texts, 0, ", ");
    assert(views(port_texts@).subrange(0, port_texts@.len() as int) == views(port_texts@));
    ContainerInfo { id, name, image: text_of(&c.image), status, state_string: text_of(&c.status), ports }
}

/// What a container action asks of the daemon.
#[derive(Debug, Clone, Copy, PartialEq, Eq, Structural)]
pub enum ContainerAction {
    Start,
    Stop,
    Restart,
}

/// The context of the error reported when the daemon refuses an action.
pub open spec fn container_action_failure(a: ContainerAction) -> Seq<char> {
    match a {
        ContainerAction::Start => "Failed to start container"@,
        ContainerAction::Stop => "Failed to stop container"@,
        ContainerAction::Restart => "Failed to restart container"@,
    }
}

/// The log lines obtained from the daemon: each chunk contributes its lines,
/// each failed read a line saying so.
pub open spec fn spec_log_lines(chunks: Seq<core::result::Result<String, String>>) -> Seq<
    Seq<char>,
>
    decreases chunks.len(),
{
    if chunks.len() == 0 {
        seq![]
    } else {
        spec_log_lines(chunks.drop_last()) + match chunks.last() {
            Ok(s) => spec_lines(s@),
            Err(e) => seq!["Error reading log: "@ + e@],
        }
    }
}

/// The arguments that open an interactive shell in a container.
pub open spec fn spec_shell_args(name: Seq<char>) -> Seq<Seq<char>> {
    seq!["exec"@, "-it"@, name, "/bin/sh"@]
}

/// The program and arguments that open an interactive shell in a container.
pub fn shell_command(name: &str) -> (c: (String, Vec<String>))
    ensures
        c.0@ == "docker"@,
        views(c.1@) == spec_shell_args(name@),
{
    let args = vec![copy_str("exec"), copy_str("-it"), copy_str(name), copy_str("/bin/sh")];
    assert(views(args@) =~= spec_shell_args(name@));
    (copy_str("docker"), args)
}

/// The containers known to the application, and whether the Docker daemon
/// could be reached when the application started.
pub struct DockerManager {
    available: bool,
    containers: Vec<ContainerInfo>,
}

impl DockerManager {
    /// Whether the daemon is reachable.
    pub closed spec fn spec_available(&self) -> bool {
        self.available
    }

    /// The containers as last listed.
    pub closed spec fn spec_containers(&self) -> Seq<ContainerInfoView> {
        container_views(self.containers@)
    }

    /// A manager with no containers listed yet.
    pub fn new(available: bool) -> (m: DockerManager)
        ensures
            m.spec_available() == available,
            m.spec_containers() == Seq::<ContainerInfoView>::empty(),
    {
        let m = DockerManager { available, containers: Vec::new() };
        assert(m.spec_containers() =~= Seq::<ContainerInfoView>::empty());
        m
    }

    /// Takes in the daemon's listing of all containers; `None` when it could
    /// not be read, which keeps the previous rows.
    pub fn refresh(&mut self, listing: Option<Vec<ContainerSummary>>)
        ensures
            final(self).spec_available() == old(self).spec_available(),
            match listing {
                Some(v) => old(self).spec_available() ==> final(self).spec_containers()
                    == v@.map_values(|c: ContainerSummary| container_row(c)),
                None => true,
            },
            (listing is None || !old(self).spec_available()) ==> final(self).spec_containers()
                == old(self).spec_containers(),
    {
        if !self.available {
            return;
        }
        match listing {
            Some(v) => {
                let mut out: Vec<ContainerInfo> = Vec::new();
                let mut i: usize = 0;
                while i < v.len()
                    invariant
                        i <= v@.len(),
                        container_views(out@) == v@.take(i as int).map_values(
                            |c: ContainerSummary| container_row(c),
                        ),
                    decreases v@.len() - i,
                {
                    let ghost prev = out@;
                    out.push(container_info(&v[i]));
                    assert(container_views(out@) =~= container_views(prev).push(out@.last()@));
                    assert(v@.take(i + 1) == v@.take(i as int).push(v@[i as int]));
                    assert(container_views(out@) =~= v@.take(i + 1).map_values(
                        |c: ContainerSummary| container_row(c),
                    ));
                    i = i + 1;
                }
                assert(v@.take(v@.len() as int) == v@);
                self.containers = out;
            },
            None => {},
        }
    }

    /// The containers as last listed.
    pub fn get_containers(&self) -> (v: Vec<ContainerInfo>)
        ensures
            container_views(v@) == self.spec_containers(),
    {
        let mut c: Vec<ContainerInfo> = Vec::new();
        let mut i: usize = 0;
        while i < self.containers.len()
            invariant
                i <= self.containers@.len(),
                c@.len() == i,
                forall|k: int| 0 <= k < i ==> (#[trigger] c@[k])@ == self.containers@[k]@,
            decreases self.containers@.len() - i,
        {
            c.push(self.containers[i].duplicate());
            i = i + 1;
        }
        assert(container_views(c@) =~= container_views(self.containers@));
        c
    }

    /// Settles an action on a container once the daemon answered (`Err` with
    /// its message when it refused). Without a daemon nothing is asked and
    /// the action counts as done.
    pub fn action_result(&self, action: ContainerAction, answer: core::result::Result<(), String>) -> (r:
        AppResult<()>)
        ensures
            !self.spec_available() ==> r is Ok,
            self.spec_available() ==> match answer {
                Ok(_) => r is Ok,
                Err(e) => r is Err && r->Err_0@ == AppErrorView::PlatformError(
                    spec_with_context(container_action_failure(action), e@),
                ),
            },
    {
        if !self.available {
            return Ok(());
        }
        match answer {
            Ok(_) => Ok(()),
            Err(e) => {
                let ctx = match action {
                    ContainerAction::Start => "Failed to start container",
                    ContainerAction::Stop => "Failed to stop container",
                    ContainerAction::Restart => "Failed to restart container",
                };
                Err(platform_error(ctx, e.as_str()))
            },
        }
    }

    /// The log lines of a container from the chunks the daemon streamed;
    /// without a daemon, a single line saying so.
    pub fn logs_result(&self, chunks: &Vec<core::result::Result<String, String>>) -> (r: AppResult<
        Vec<String>,
    >)
        ensures
            r is Ok,
            self.spec_available() ==> views(r->Ok_0@) == spec_log_lines(chunks@),
            !self.spec_available() ==> views(r->Ok_0@) == seq!["Docker is not available"@],
    {
        if !self.available {
            let v = vec![String::from_str("Docker is not available")];
            assert(views(v@) =~= seq!["Docker is not available"@]);
            return Ok(v);
        }
        let mut out: Vec<String> = Vec::new();
        let mut i: usize = 0;
        while i < chunks.len()
            invariant
                i <= chunks@.len(),
                views(out@) == spec_log_lines(chunks@.take(i as int)),
            decreases chunks@.len() - i,
        {
            assert(chunks@.take(i + 1).drop_last() == chunks@.take(i as int));
            assert(chunks@.take(i + 1).last() == chunks@[i as int]);
            let ghost before = views(out@);
            match &chunks[i] {
                Ok(s) => {
                    let ls = lines(s.as_str());
                    let mut j: usize = 0;
                    while j < ls.len()
                        invariant
                            j <= ls@.len(),
                            views(out@) == before + views(ls@).take(j as int),
                        decreases ls@.len() - j,
                    {
                        let ghost prev = out@;
                        out.push(copy_str(ls[j].as_str()));
                        assert(views(out@) =~= views(prev).push(out@.last()@));
                        assert(views(ls@).take(j + 1) == views(ls@).take(j as int).push(ls@[j as int]@));
                        assert(views(out@) =~= before + views(ls@).take(j + 1));
                        j = j + 1;
                    }
                    assert(views(ls@).take(ls@.len() as int) == views(ls@));
                },
                Err(e) => {
                    out.push(String::from_str("Error reading log: ").concat(e.as_str()));
                    assert(views(out@) =~= before + seq!["Error reading log: "@ + e@]);
                },
            }
            i = i + 1;
        }
        assert(chunks@.take(chunks@.len() as int) == chunks@);
        Ok(out)
    }
}


// ---------------------------------------------------------------------------
// Laws
// ---------------------------------------------------------------------------

/// A container's status is read from its lower-cased state by the first of
/// these words it contains, in this order: running, exited, paused,
/// restarting, dead, created, removing; with none of them it is unknown.
pub proof fn lemma_container_status(c: ContainerSummary)
    ensures
        ({
            let st = match c.state {
                Some(s) => spec_lowercase(s@),
                None => seq![],
            };
            let r = container_row(c).status;
            let running = spec_contains(st, "running"@);
            let exited = spec_contains(st, "exited"@);
            let paused = spec_contains(st, "paused"@);
            let restarting = spec_contains(st, "restarting"@);
            let dead = spec_contains(st, "dead"@);
            let created = spec_contains(st, "created"@);
            let removing = spec_contains(st, "removing"@);
            &&& running ==> r == ContainerStatus::Running
            &&& !running && exited ==> r == ContainerStatus::Exited
            &&& !running && !exited && paused ==> r == ContainerStatus::Paused
            &&& !running && !exited && !paused && restarting ==> r == ContainerStatus::Restarting
            &&& !running && !exited && !paused && !restarting && dead ==> r == ContainerStatus::Dead
            &&& !running && !exited && !paused && !restarting && !dead && created ==> r
                == ContainerStatus::Created
            &&& !running && !exited && !paused && !restarting && !dead && !created && removing ==> r
                == ContainerStatus::Removing
            &&& !running && !exited && !paused && !restarting && !dead && !created && !removing ==> r
                == ContainerStatus::Unknown
        }),
{
}

/// Removing every `/` leaves no `/`.
proof fn lemma_no_slash(s: Seq<char>)
    ensures
        forall|k: int|
            0 <= k < spec_remove_all(s, "/"@).len() ==> #[trigger] spec_remove_all(s, "/"@)[k] != '/',
    decreases s.len(),
{
    reveal_strlit("/");
    if s.len() > 0 {
        assert("/"@.len() == 1);
        if s.subrange(0, 1) == "/"@ {
            lemma_no_slash(s.subrange(1, s.len() as int));
            assert(spec_remove_all(s, "/"@) == spec_remove_all(s.subrange(1, s.len() as int), "/"@));
        } else {
            lemma_no_slash(s.drop_first());
            assert(s[0] != '/') by {
                if s[0] == '/' {
                    assert(s.subrange(0, 1) =~= "/"@);
                }
            }
            let rest = spec_remove_all(s.drop_first(), "/"@);
            assert(spec_remove_all(s, "/"@) == seq![s[0]] + rest);
            assert forall|k: int| 0 <= k < spec_remove_all(s, "/"@).len() implies #[trigger] spec_remove_all(
                s,
                "/"@,
            )[k] != '/' by {
                if k > 0 {
                    assert(spec_remove_all(s, "/"@)[k] == rest[k - 1]);
                }
            }
        }
    }
}

/// The row of a listed container: its id is the first twelve characters of
/// the daemon's id (all of it when shorter), its name has no `/` left, and
/// its image and status text are the daemon's as given.
pub proof fn lemma_container_row(c: ContainerSummary)
    ensures
        ({
            let id = text_or_empty(c.id);
            let row = container_row(c);
            &&& row.id.len() == if id.len() > 12 {
                12
            } else {
                id.len()
            }
            &&& forall|k: int| 0 <= k < row.id.len() ==> #[trigger] row.id[k] == id[k]
            &&& forall|k: int| 0 <= k < row.name.len() ==> #[trigger] row.name[k] != '/'
            &&& row.image == text_or_empty(c.image)
            &&& row.state_string == text_or_empty(c.status)
        }),
{
    let names = match c.names {
        Some(v) => views(v@),
        None => seq![],
    };
    lemma_no_slash(spec_join(names, ", "@));
}

/// A refused action is reported as a failure of that very action: starting,
/// stopping and restarting each name their own verb.
pub proof fn lemma_container_action_failures()
    ensures
        container_action_failure(ContainerAction::Start) == "Failed to start container"@,
        container_action_failure(ContainerAction::Stop) == "Failed to stop container"@,
        container_action_failure(ContainerAction::Restart) == "Failed to restart container"@,
{
}

/// The log lines of a stream are those of its first part followed by those
/// of the rest; a failed read adds exactly one line, which says so, and a
/// chunk read whole adds its own lines.
pub proof fn lemma_log_lines_concat(
    a: Seq<core::result::Result<String, String>>,
    b: Seq<core::result::Result<String, String>>,
)
    ensures
        spec_log_lines(a + b) == spec_log_lines(a) + spec_log_lines(b),
        forall|e: String|
            #[trigger] spec_log_lines(a.push(Err(e))) == spec_log_lines(a).push(
                "Error reading log: "@ + e@,
            ),
        forall|s: String|
            #[trigger] spec_log_lines(a.push(Ok(s))) == spec_log_lines(a) + spec_lines(s@),
    decreases b.len(),
{
    if b.len() == 0 {
        assert(a + b == a);
        assert(spec_log_lines(a) + spec_log_lines(b) == spec_log_lines(a));
    } else {
        lemma_log_lines_concat(a, b.drop_last());
        assert((a + b).drop_last() == a + b.drop_last());
        assert((a + b).last() == b.last());
    }
    assert forall|e: String|
        #[trigger] spec_log_lines(a.push(Err(e))) == spec_log_lines(a).push(
            "Error reading log: "@ + e@,
        ) by {
        assert(a.push(Err(e)).drop_last() == a);
        assert(spec_log_lines(a) + seq!["Error reading log: "@ + e@] == spec_log_lines(a).push(
            "Error reading log: "@ + e@,
        ));
    }
    assert forall|s: String| #[trigger] spec_log_lines(a.push(Ok(s))) == spec_log_lines(a) + spec_lines(s@) by {
        assert(a.push(Ok(s)).drop_last() == a);
    }
}

} // verus!
