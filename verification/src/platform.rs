//! Platform detection and the platforms' service engines (systemd, launchd).
use vstd::prelude::*;
use crate::errors::{AppError, AppErrorView, AppResult, platform_error, spec_with_context};
use crate::services::{
    CommandOutcome, LogsPlan, LogsPlanView, PlanView, ServiceAction, ServiceEngine, ServiceInfo,
    ServiceInfoView, ServicePlan, ServiceStatus, ServiceStep, StepView, copy_services,
    service_views,
};
use crate::text::{
    decimal, join_from, lines, remove_all, spec_decimal, spec_join, spec_lines, spec_remove_all,
    spec_words, split_whitespace, str_eq, views, copy_str,
};

verus! {

// ---------------------------------------------------------------------------
// Commands
// ---------------------------------------------------------------------------

/// A step by its parts.
pub open spec fn step_view(program: Seq<char>, args: Seq<Seq<char>>, failure: Seq<char>) -> StepView {
    StepView { program, args, failure }
}

fn make_step(program: &str, args: Vec<String>, failure: &str) -> (s: ServiceStep)
    ensures
        s@ == step_view(program@, views(args@), failure@),
{
    ServiceStep { program: copy_str(program), args, failure: copy_str(failure) }
}

/// The verb `systemctl` and `launchctl` use for an action.
pub open spec fn action_verb(action: ServiceAction) -> Seq<char> {
    match action {
        ServiceAction::Start => "start"@,
        ServiceAction::Stop => "stop"@,
        ServiceAction::Restart => "restart"@,
        ServiceAction::Enable => "enable"@,
        ServiceAction::Disable => "disable"@,
    }
}

/// The context of the error reported when an action's command cannot be started.
pub open spec fn action_failure(action: ServiceAction) -> Seq<char> {
    match action {
        ServiceAction::Start => "Failed to start service"@,
        ServiceAction::Stop => "Failed to stop service"@,
        ServiceAction::Restart => "Failed to restart service"@,
        ServiceAction::Enable => "Failed to enable service"@,
        ServiceAction::Disable => "Failed to disable service"@,
    }
}

fn verb_of(action: ServiceAction) -> (s: String)
    ensures
        s@ == action_verb(action),
{
    match action {
        ServiceAction::Start => String::from_str("start"),
        ServiceAction::Stop => String::from_str("stop"),
        ServiceAction::Restart => String::from_str("restart"),
        ServiceAction::Enable => String::from_str("enable"),
        ServiceAction::Disable => String::from_str("disable"),
    }
}

fn failure_of(action: ServiceAction) -> (s: String)
    ensures
        s@ == action_failure(action),
{
    match action {
        ServiceAction::Start => String::from_str("Failed to start service"),
        ServiceAction::Stop => String::from_str("Failed to stop service"),
        ServiceAction::Restart => String::from_str("Failed to restart service"),
        ServiceAction::Enable => String::from_str("Failed to enable service"),
        ServiceAction::Disable => String::from_str("Failed to disable service"),
    }
}

// ---------------------------------------------------------------------------
// Parsing listings
// ---------------------------------------------------------------------------

/// The services that `parse` finds in `lines`, in order, lines it rejects skipped.
pub open spec fn parsed_services(
    lines: Seq<Seq<char>>,
    parse: spec_fn(Seq<char>) -> Option<ServiceInfoView>,
) -> Seq<ServiceInfoView>
    decreases lines.len(),
{
    if lines.len() == 0 {
        seq![]
    } else {
        parsed_services(lines.drop_last(), parse) + match parse(lines.last()) {
            Some(v) => seq![v],
            None => seq![],
        }
    }
}

/// The status systemd's `ACTIVE` column stands for.
pub open spec fn systemd_status(active: Seq<char>) -> ServiceStatus {
    if active == "active"@ {
        ServiceStatus::Running
    } else if active == "inactive"@ {
        ServiceStatus::Stopped
    } else if active == "failed"@ {
        ServiceStatus::Failed
    } else if active == "reloading"@ {
        ServiceStatus::Restarting
    } else {
        ServiceStatus::Unknown
    }
}

/// A line of `systemctl list-units` output (`UNIT LOAD ACTIVE SUB DESCRIPTION...`):
/// the unit without `.service`, its description words joined by single spaces,
/// and enabled when loaded. Lines with fewer than four words are skipped.
pub open spec fn systemd_line(line: Seq<char>) -> Option<ServiceInfoView> {
    let p = spec_words(line);
    if p.len() >= 4 {
        Some(
            ServiceInfoView {
                name: spec_remove_all(p[0], ".service"@),
                description: spec_join(p.subrange(4, p.len() as int), " "@),
                status: systemd_status(p[2]),
                is_enabled: p[1] == "loaded"@,
            },
        )
    } else {
        None
    }
}

/// The services listed in `systemctl list-units` output.
pub open spec fn systemd_services(out: Seq<char>) -> Seq<ServiceInfoView> {
    parsed_services(spec_lines(out), |l: Seq<char>| systemd_line(l))
}

/// A line of `launchctl list` output (`PID STATUS LABEL`): running when it
/// has a pid, else failed when its last exit status is not `0`, else stopped.
/// Lines with fewer than three words are skipped.
pub open spec fn launchd_line(line: Seq<char>) -> Option<ServiceInfoView> {
    let p = spec_words(line);
    if p.len() >= 3 {
        Some(
            ServiceInfoView {
                name: p[2],
                description: "launchd service: "@ + p[2],
                status: if p[0] != "-"@ {
                    ServiceStatus::Running
                } else if p[1] != "0"@ {
                    ServiceStatus::Failed
                } else {
                    ServiceStatus::Stopped
                },
                is_enabled: true,
            },
        )
    } else {
        None
    }
}

/// `s` without its first element, if it has one.
pub open spec fn skip_first<A>(s: Seq<A>) -> Seq<A> {
    if s.len() == 0 {
        s
    } else {
        s.drop_first()
    }
}

/// The services listed in `launchctl list` output; its first line is a header.
pub open spec fn launchd_services(out: Seq<char>) -> Seq<ServiceInfoView> {
    parsed_services(skip_first(spec_lines(out)), |l: Seq<char>| launchd_line(l))
}

fn parse_systemd_line(line: &str) -> (o: Option<ServiceInfo>)
    ensures
        o is Some == systemd_line(line@) is Some,
        o is Some ==> o->Some_0@ == systemd_line(line@)->Some_0,
{
    let parts = split_whitespace(line);
    if parts.len() < 4 {
        return None;
    }
    proof {
        reveal_strlit(".service");
    }
    let name = remove_all(parts[0].as_str(), ".service");
    let description = join_from(&parts, 4, " ");
    let active = parts[2].as_str();
    let status = if str_eq(active, "active") {
        ServiceStatus::Running
    } else if str_eq(active, "inactive") {
        ServiceStatus::Stopped
    } else if str_eq(active, "failed") {
        ServiceStatus::Failed
    } else if str_eq(active, "reloading") {
        ServiceStatus::Restarting
    } else {
        ServiceStatus::Unknown
    };
    let is_enabled = str_eq(parts[1].as_str(), "loaded");
    Some(ServiceInfo { name, description, status, is_enabled })
}

fn parse_launchd_line(line: &str) -> (o: Option<ServiceInfo>)
    ensures
        o is Some == launchd_line(line@) is Some,
        o is Some ==> o->Some_0@ == launchd_line(line@)->Some_0,
{
    let parts = split_whitespace(line);
    if parts.len() < 3 {
        return None;
    }
    let status = if !str_eq(parts[0].as_str(), "-") {
        ServiceStatus::Running
    } else if !str_eq(parts[1].as_str(), "0") {
        ServiceStatus::Failed
    } else {
        ServiceStatus::Stopped
    };
    let name = copy_str(parts[2].as_str());
    let description = String::from_str("launchd service: ").concat(parts[2].as_str());
    Some(ServiceInfo { name, description, status, is_enabled: true })
}

/// Which listing format a parse reads.
enum Listing {
    Systemd,
    Launchd,
}

spec fn listing_line(kind: Listing) -> spec_fn(Seq<char>) -> Option<ServiceInfoView> {
    match kind {
        Listing::Systemd => |l: Seq<char>| systemd_line(l),
        Listing::Launchd => |l: Seq<char>| launchd_line(l),
    }
}

fn parse_listing(out: &str, kind: Listing) -> (v: Vec<ServiceInfo>)
    ensures
        service_views(v@) == parsed_services(
            match kind {
                Listing::Systemd => spec_lines(out@),
                Listing::Launchd => skip_first(spec_lines(out@)),
            },
            listing_line(kind),
        ),
{
    let ls = lines(out);
    let ghost all = views(ls@);
    let start: usize = match kind {
        Listing::Systemd => 0,
        Listing::Launchd => if ls.len() > 0 {
            1
        } else {
            0
        },
    };
    let ghost f = listing_line(kind);
    let ghost target = match kind {
        Listing::Systemd => spec_lines(out@),
        Listing::Launchd => skip_first(spec_lines(out@)),
    };
    assert(target == all.subrange(start as int, all.len() as int));
    let mut v: Vec<ServiceInfo> = Vec::new();
    let mut i = start;
    assert(all.subrange(start as int, start as int) =~= Seq::<Seq<char>>::empty());
    assert(service_views(v@) =~= Seq::<ServiceInfoView>::empty());
    while i < ls.len()
        invariant
            start <= i <= ls@.len(),
            all == views(ls@),
            f == listing_line(kind),
            service_views(v@) == parsed_services(all.subrange(start as int, i as int), f),
        decreases ls@.len() - i,
    {
        let ghost prev = v@;
        let parsed = match kind {
            Listing::Systemd => parse_systemd_line(ls[i].as_str()),
            Listing::Launchd => parse_launchd_line(ls[i].as_str()),
        };
        assert(all.subrange(start as int, i + 1).drop_last() == all.subrange(
            start as int,
            i as int,
        ));
        assert(all.subrange(start as int, i + 1).last() == ls@[i as int]@);
        match parsed {
            Some(s) => {
                v.push(s);
                assert(service_views(v@) =~= service_views(prev) + seq![s@]);
            },
            None => {
                assert(service_views(v@) =~= service_views(prev) + Seq::<ServiceInfoView>::empty());
            },
        }
        i = i + 1;
    }
    v
}

// ---------------------------------------------------------------------------
// systemd
// ---------------------------------------------------------------------------

/// On systemd every action runs one command on the named unit: start,
/// stop, restart and enable run `sudo systemctl <verb> <name>` with their
/// own verb, disable runs `systemctl disable <name>`; a command that cannot
/// be started is reported as failing to do that same action.
pub proof fn lemma_systemd_actions(name: Seq<char>)
    ensures
        systemd_plan(ServiceAction::Start, name) == PlanView::Run(
            seq![step_view("sudo"@, seq!["systemctl"@, "start"@, name], "Failed to start service"@)],
        ),
        systemd_plan(ServiceAction::Stop, name) == PlanView::Run(
            seq![step_view("sudo"@, seq!["systemctl"@, "stop"@, name], "Failed to stop service"@)],
        ),
        systemd_plan(ServiceAction::Restart, name) == PlanView::Run(
            seq![
                step_view(
                    "sudo"@,
                    seq!["systemctl"@, "restart"@, name],
                    "Failed to restart service"@,
                ),
            ],
        ),
        systemd_plan(ServiceAction::Enable, name) == PlanView::Run(
            seq![
                step_view("sudo"@, seq!["systemctl"@, "enable"@, name], "Failed to enable service"@),
            ],
        ),
        systemd_plan(ServiceAction::Disable, name) == PlanView::Run(
            seq![step_view("systemctl"@, seq!["disable"@, name], "Failed to disable service"@)],
        ),
{
}

/// On launchd, start and stop run `launchctl start|stop <name>`, restart
/// stops and then starts the same service, and enable and disable are
/// refused without running anything.
pub proof fn lemma_launchd_actions(name: Seq<char>)
    ensures
        launchd_plan(ServiceAction::Start, name) == PlanView::Run(
            seq![step_view("launchctl"@, seq!["start"@, name], "Failed to start service"@)],
        ),
        launchd_plan(ServiceAction::Stop, name) == PlanView::Run(
            seq![step_view("launchctl"@, seq!["stop"@, name], "Failed to stop service"@)],
        ),
        launchd_plan(ServiceAction::Restart, name) == PlanView::Run(
            seq![
                step_view("launchctl"@, seq!["stop"@, name], "Failed to stop service"@),
                step_view("launchctl"@, seq!["start"@, name], "Failed to start service"@),
            ],
        ),
        launchd_plan(ServiceAction::Enable, name) is Refused,
        launchd_plan(ServiceAction::Disable, name) is Refused,
{
}

/// A listed systemd unit with at least four columns is kept, named by its
/// unit without `.service`: it is running when its ACTIVE column reads
/// `active`, stopped on `inactive`, failed on `failed`, restarting on
/// `reloading` and unknown on anything else; it counts as enabled exactly
/// when its LOAD column reads `loaded`. Shorter lines are dropped.
pub proof fn lemma_systemd_line(line: Seq<char>)
    ensures
        ({
            let p = spec_words(line);
            let o = systemd_line(line);
            &&& (p.len() < 4 ==> o is None)
            &&& (p.len() >= 4 ==> {
                let v = o->Some_0;
                &&& o is Some
                &&& v.name == spec_remove_all(p[0], ".service"@)
                &&& (v.is_enabled <==> p[1] == "loaded"@)
                &&& (p[2] == "active"@ ==> v.status == ServiceStatus::Running)
                &&& (p[2] == "inactive"@ ==> v.status == ServiceStatus::Stopped)
                &&& (p[2] == "failed"@ ==> v.status == ServiceStatus::Failed)
                &&& (p[2] == "reloading"@ ==> v.status == ServiceStatus::Restarting)
                &&& (p[2] != "active"@ && p[2] != "inactive"@ && p[2] != "failed"@ && p[2]
                    != "reloading"@ ==> v.status == ServiceStatus::Unknown)
            })
        }),
{
    reveal_strlit("active");
    reveal_strlit("inactive");
    reveal_strlit("failed");
    reveal_strlit("reloading");
    assert("active"@ != "failed"@) by {
        assert("active"@[0] != "failed"@[0]);
    }
    assert("active"@.len() == 6 && "failed"@.len() == 6 && "inactive"@.len() == 8
        && "reloading"@.len() == 9);
    let p = spec_words(line);
    if p.len() >= 4 {
        let v = systemd_line(line)->Some_0;
        assert(v.status == systemd_status(p[2]));
    }
}

/// A listed launchd job with at least three columns is kept under its
/// label: running when it has a pid, otherwise failed when its last exit
/// status is not `0` and stopped when it is; it is always counted enabled.
/// Shorter lines are dropped.
pub proof fn lemma_launchd_line(line: Seq<char>)
    ensures
        ({
            let p = spec_words(line);
            let o = launchd_line(line);
            &&& (p.len() < 3 ==> o is None)
            &&& (p.len() >= 3 ==> {
                let v = o->Some_0;
                &&& o is Some
                &&& v.name == p[2]
                &&& v.is_enabled
                &&& (v.status == ServiceStatus::Running <==> p[0] != "-"@)
                &&& (v.status == ServiceStatus::Failed <==> p[0] == "-"@ && p[1] != "0"@)
                &&& (v.status == ServiceStatus::Stopped <==> p[0] == "-"@ && p[1] == "0"@)
            })
        }),
{
}

/// The command that lists systemd services.
pub open spec fn systemd_refresh_step() -> StepView {
    step_view(
        "systemctl"@,
        seq!["list-units"@, "--type=service"@, "--all"@, "--no-pager"@, "--no-legend"@],
        "Failed to execute systemctl"@,
    )
}

/// The commands for an action on a systemd service: `sudo systemctl <verb> <name>`,
/// except that disabling runs `systemctl disable <name>` without `sudo`.
pub open spec fn systemd_plan(action: ServiceAction, name: Seq<char>) -> PlanView {
    match action {
        ServiceAction::Disable => PlanView::Run(
            seq![step_view("systemctl"@, seq!["disable"@, name], action_failure(action))],
        ),
        _ => PlanView::Run(
            seq![
                step_view(
                    "sudo"@,
                    seq!["systemctl"@, action_verb(action), name],
                    action_failure(action),
                ),
            ],
        ),
    }
}

/// The journal of a systemd unit: `journalctl -u <name> -n <lines> --no-pager`.
pub open spec fn systemd_logs_plan(name: Seq<char>, lines: nat) -> LogsPlanView {
    LogsPlanView::Run(
        step_view(
            "journalctl"@,
            seq!["-u"@, name, "-n"@, spec_decimal(lines), "--no-pager"@],
            "Failed to get logs"@,
        ),
    )
}

/// Services managed by systemd (Linux).
pub struct SystemdEngine {
    services: Vec<ServiceInfo>,
}

impl SystemdEngine {
    /// The services as last listed.
    pub closed spec fn spec_services(&self) -> Seq<ServiceInfoView> {
        service_views(self.services@)
    }

    pub fn new() -> (e: SystemdEngine)
        ensures
            e.spec_services() == Seq::<ServiceInfoView>::empty(),
    {
        let e = SystemdEngine { services: Vec::new() };
        assert(e.spec_services() =~= Seq::<ServiceInfoView>::empty());
        e
    }

    fn action(&self, action: ServiceAction, name: &str) -> (p: ServicePlan)
        ensures
            p@ == systemd_plan(action, name@),
    {
        let step = match action {
            ServiceAction::Disable => {
                let args = vec![String::from_str("disable"), copy_str(name)];
                assert(views(args@) =~= seq!["disable"@, name@]);
                make_step("systemctl", args, "Failed to disable service")
            },
            _ => {
                let args = vec![String::from_str("systemctl"), verb_of(action), copy_str(name)];
                assert(views(args@) =~= seq!["systemctl"@, action_verb(action), name@]);
                let failure = failure_of(action);
                make_step("sudo", args, failure.as_str())
            },
        };
        let ghost sv = step@;
        let steps = vec![step];
        assert(steps@.map_values(|s: ServiceStep| s@) =~= seq![sv]);
        ServicePlan::Run(steps)
    }
}

impl ServiceEngine for SystemdEngine {
    fn refresh_command(&self) -> (s: ServiceStep)
        ensures
            s@ == systemd_refresh_step(),
    {
        let args = vec![
            String::from_str("list-units"),
            String::from_str("--type=service"),
            String::from_str("--all"),
            String::from_str("--no-pager"),
            String::from_str("--no-legend"),
        ];
        assert(views(args@) =~= seq![
            "list-units"@,
            "--type=service"@,
            "--all"@,
            "--no-pager"@,
            "--no-legend"@,
        ]);
        make_step("systemctl", args, "Failed to execute systemctl")
    }

    fn refresh(&mut self, outcome: CommandOutcome) -> (r: AppResult<()>)
        ensures
            match outcome {
                CommandOutcome::Completed { stdout } => r is Ok && final(self).spec_services()
                    == systemd_services(stdout@),
                CommandOutcome::NotStarted { reason } => r is Err && r->Err_0@
                    == AppErrorView::PlatformError(
                    spec_with_context(systemd_refresh_step().failure, reason@),
                ) && final(self).spec_services() == old(self).spec_services(),
            },
    {
        match outcome {
            CommandOutcome::Completed { stdout } => {
                self.services = parse_listing(stdout.as_str(), Listing::Systemd);
                Ok(())
            },
            CommandOutcome::NotStarted { reason } => Err(
                platform_error("Failed to execute systemctl", reason.as_str()),
            ),
        }
    }

    fn get_services(&self) -> (v: Vec<ServiceInfo>)
        ensures
            service_views(v@) == self.spec_services(),
    {
        copy_services(&self.services)
    }

    fn start_service(&self, name: &str) -> (p: ServicePlan)
        ensures
            p@ == systemd_plan(ServiceAction::Start, name@),
    {
        self.action(ServiceAction::Start, name)
    }

    fn stop_service(&self, name: &str) -> (p: ServicePlan)
        ensures
            p@ == systemd_plan(ServiceAction::Stop, name@),
    {
        self.action(ServiceAction::Stop, name)
    }

    fn restart_service(&self, name: &str) -> (p: ServicePlan)
        ensures
            p@ == systemd_plan(ServiceAction::Restart, name@),
    {
        self.action(ServiceAction::Restart, name)
    }

    fn enable_service(&self, name: &str) -> (p: ServicePlan)
        ensures
            p@ == systemd_plan(ServiceAction::Enable, name@),
    {
        self.action(ServiceAction::Enable, name)
    }

    fn disable_service(&self, name: &str) -> (p: ServicePlan)
        ensures
            p@ == systemd_plan(ServiceAction::Disable, name@),
    {
        self.action(ServiceAction::Disable, name)
    }

    fn get_service_logs(&self, name: &str, lines: usize) -> (p: LogsPlan)
        ensures
            p@ == systemd_logs_plan(name@, lines as nat),
    {
        let args = vec![
            String::from_str("-u"),
            copy_str(name),
            String::from_str("-n"),
            decimal(lines as u64),
            String::from_str("--no-pager"),
        ];
        assert(views(args@) =~= seq![
            "-u"@,
            name@,
            "-n"@,
            spec_decimal(lines as nat),
            "--no-pager"@,
        ]);
        LogsPlan::Run(make_step("journalctl", args, "Failed to get logs"))
    }
}

// ---------------------------------------------------------------------------
// launchd
// ---------------------------------------------------------------------------

/// The command that lists launchd services.
pub open spec fn launchd_refresh_step() -> StepView {
    step_view("launchctl"@, seq!["list"@], "Failed to execute launchctl"@)
}

/// One `launchctl <verb> <name>` step.
pub open spec fn launchctl_step(action: ServiceAction, name: Seq<char>) -> StepView {
    step_view("launchctl"@, seq![action_verb(action), name], action_failure(action))
}

/// The commands for an action on a launchd service: start and stop run
/// `launchctl start|stop <name>`, restart stops then starts, and enabling or
/// disabling by a bare name is refused.
pub open spec fn launchd_plan(action: ServiceAction, name: Seq<char>) -> PlanView {
    match action {
        ServiceAction::Start => PlanView::Run(seq![launchctl_step(ServiceAction::Start, name)]),
        ServiceAction::Stop => PlanView::Run(seq![launchctl_step(ServiceAction::Stop, name)]),
        ServiceAction::Restart => PlanView::Run(
            seq![
                launchctl_step(ServiceAction::Stop, name),
                launchctl_step(ServiceAction::Start, name),
            ],
        ),
        ServiceAction::Enable => PlanView::Refused(
            AppErrorView::PlatformError("Enable not supported for launchctl via simple name"@),
        ),
        ServiceAction::Disable => PlanView::Refused(
            AppErrorView::PlatformError("Disable not supported for launchctl via simple name"@),
        ),
    }
}

/// launchd offers no log lines by name: a single line saying so.
pub open spec fn launchd_logs_plan() -> LogsPlanView {
    LogsPlanView::Ready(seq!["Log viewing for launchd services is not supported yet."@])
}

/// Services managed by launchd (macOS).
pub struct LaunchdEngine {
    services: Vec<ServiceInfo>,
}

impl LaunchdEngine {
    /// The services as last listed.
    pub closed spec fn spec_services(&self) -> Seq<ServiceInfoView> {
        service_views(self.services@)
    }

    pub fn new() -> (e: LaunchdEngine)
        ensures
            e.spec_services() == Seq::<ServiceInfoView>::empty(),
    {
        let e = LaunchdEngine { services: Vec::new() };
        assert(e.spec_services() =~= Seq::<ServiceInfoView>::empty());
        e
    }

    fn step(action: ServiceAction, name: &str) -> (s: ServiceStep)
        requires
            action == ServiceAction::Start || action == ServiceAction::Stop,
        ensures
            s@ == launchctl_step(action, name@),
    {
        let args = vec![verb_of(action), copy_str(name)];
        assert(views(args@) =~= seq![action_verb(action), name@]);
        let failure = failure_of(action);
        make_step("launchctl", args, failure.as_str())
    }
}

impl ServiceEngine for LaunchdEngine {
    fn refresh_command(&self) -> (s: ServiceStep)
        ensures
            s@ == launchd_refresh_step(),
    {
        let args = vec![String::from_str("list")];
        assert(views(args@) =~= seq!["list"@]);
        make_step("launchctl", args, "Failed to execute launchctl")
    }

    fn refresh(&mut self, outcome: CommandOutcome) -> (r: AppResult<()>)
        ensures
            match outcome {
                CommandOutcome::Completed { stdout } => r is Ok && final(self).spec_services()
                    == launchd_services(stdout@),
                CommandOutcome::NotStarted { reason } => r is Err && r->Err_0@
                    == AppErrorView::PlatformError(
                    spec_with_context(launchd_refresh_step().failure, reason@),
                ) && final(self).spec_services() == old(self).spec_services(),
            },
    {
        match outcome {
            CommandOutcome::Completed { stdout } => {
                self.services = parse_listing(stdout.as_str(), Listing::Launchd);
                Ok(())
            },
            CommandOutcome::NotStarted { reason } => Err(
                platform_error("Failed to execute launchctl", reason.as_str()),
            ),
        }
    }

    fn get_services(&self) -> (v: Vec<ServiceInfo>)
        ensures
            service_views(v@) == self.spec_services(),
    {
        copy_services(&self.services)
    }

    fn start_service(&self, name: &str) -> (p: ServicePlan)
        ensures
            p@ == launchd_plan(ServiceAction::Start, name@),
    {
        let st = Self::step(ServiceAction::Start, name);
        let ghost sv = st@;
        let steps = vec![st];
        assert(steps@.map_values(|s: ServiceStep| s@) =~= seq![sv]);
        ServicePlan::Run(steps)
    }

    fn stop_service(&self, name: &str) -> (p: ServicePlan)
        ensures
            p@ == launchd_plan(ServiceAction::Stop, name@),
    {
        let st = Self::step(ServiceAction::Stop, name);
        let ghost sv = st@;
        let steps = vec![st];
        assert(steps@.map_values(|s: ServiceStep| s@) =~= seq![sv]);
        ServicePlan::Run(steps)
    }

    fn restart_service(&self, name: &str) -> (p: ServicePlan)
        ensures
            p@ == launchd_plan(ServiceAction::Restart, name@),
    {
        let a = Self::step(ServiceAction::Stop, name);
        let b = Self::step(ServiceAction::Start, name);
        let ghost (av, bv) = (a@, b@);
        let steps = vec![a, b];
        assert(steps@.map_values(|s: ServiceStep| s@) =~= seq![av, bv]);
        ServicePlan::Run(steps)
    }

    fn enable_service(&self, name: &str) -> (p: ServicePlan)
        ensures
            p@ == launchd_plan(ServiceAction::Enable, name@),
    {
        ServicePlan::Refused(
            AppError::PlatformError(
                String::from_str("Enable not supported for launchctl via simple name"),
            ),
        )
    }

    fn disable_service(&self, name: &str) -> (p: ServicePlan)
        ensures
            p@ == launchd_plan(ServiceAction::Disable, name@),
    {
        ServicePlan::Refused(
            AppError::PlatformError(
                String::from_str("Disable not supported for launchctl via simple name"),
            ),
        )
    }

    fn get_service_logs(&self, name: &str, lines: usize) -> (p: LogsPlan)
        ensures
            p@ == launchd_logs_plan(),
    {
        let l = vec![String::from_str("Log viewing for launchd services is not supported yet.")];
        assert(views(l@) =~= seq!["Log viewing for launchd services is not supported yet."@]);
        LogsPlan::Ready(l)
    }
}

// ---------------------------------------------------------------------------
// The platform's engine
// ---------------------------------------------------------------------------

/// The service engine of the platform the application runs on.
pub enum ServiceBackend {
    Systemd(SystemdEngine),
    Launchd(LaunchdEngine),
}

impl ServiceBackend {
    /// The services as last listed.
    pub open spec fn spec_services(&self) -> Seq<ServiceInfoView> {
        match self {
            ServiceBackend::Systemd(e) => e.spec_services(),
            ServiceBackend::Launchd(e) => e.spec_services(),
        }
    }

    /// The command that lists the services.
    pub open spec fn spec_refresh_step(&self) -> StepView {
        match self {
            ServiceBackend::Systemd(_) => systemd_refresh_step(),
            ServiceBackend::Launchd(_) => launchd_refresh_step(),
        }
    }

    /// The services a listing command's output holds.
    pub open spec fn spec_listing(&self, out: Seq<char>) -> Seq<ServiceInfoView> {
        match self {
            ServiceBackend::Systemd(_) => systemd_services(out),
            ServiceBackend::Launchd(_) => launchd_services(out),
        }
    }

    /// What taking in `outcome` does: on output, the services become what it
    /// lists; when the command could not be started, an error naming the
    /// reason, and nothing changes. The engine keeps its platform.
    pub open spec fn spec_refresh_result(
        &self,
        outcome: CommandOutcome,
        r: AppResult<()>,
        after: ServiceBackend,
    ) -> bool {
        &&& (self is Systemd <==> after is Systemd)
        &&& match outcome {
            CommandOutcome::Completed { stdout } => r is Ok && after.spec_services()
                == self.spec_listing(stdout@),
            CommandOutcome::NotStarted { reason } => r is Err && r->Err_0@
                == AppErrorView::PlatformError(
                spec_with_context(self.spec_refresh_step().failure, reason@),
            ) && after.spec_services() == self.spec_services(),
        }
    }

    /// The commands for an action on the service `name`.
    pub open spec fn spec_plan(&self, action: ServiceAction, name: Seq<char>) -> PlanView {
        match self {
            ServiceBackend::Systemd(_) => systemd_plan(action, name),
            ServiceBackend::Launchd(_) => launchd_plan(action, name),
        }
    }

    /// How the last `lines` log lines of `name` are obtained.
    pub open spec fn spec_logs_plan(&self, name: Seq<char>, lines: nat) -> LogsPlanView {
        match self {
            ServiceBackend::Systemd(_) => systemd_logs_plan(name, lines),
            ServiceBackend::Launchd(_) => launchd_logs_plan(),
        }
    }
}

impl ServiceEngine for ServiceBackend {
    fn refresh_command(&self) -> (s: ServiceStep)
        ensures
            s@ == self.spec_refresh_step(),
    {
        match self {
            ServiceBackend::Systemd(e) => e.refresh_command(),
            ServiceBackend::Launchd(e) => e.refresh_command(),
        }
    }

    fn refresh(&mut self, outcome: CommandOutcome) -> (r: AppResult<()>)
        ensures
            old(self).spec_refresh_result(outcome, r, *final(self)),
    {
        match self {
            ServiceBackend::Systemd(e) => e.refresh(outcome),
            ServiceBackend::Launchd(e) => e.refresh(outcome),
        }
    }

    fn get_services(&self) -> (v: Vec<ServiceInfo>)
        ensures
            service_views(v@) == self.spec_services(),
    {
        match self {
            ServiceBackend::Systemd(e) => e.get_services(),
            ServiceBackend::Launchd(e) => e.get_services(),
        }
    }

    fn start_service(&self, name: &str) -> (p: ServicePlan)
        ensures
            p@ == self.spec_plan(ServiceAction::Start, name@),
    {
        match self {
            ServiceBackend::Systemd(e) => e.start_service(name),
            ServiceBackend::Launchd(e) => e.start_service(name),
        }
    }

    fn stop_service(&self, name: &str) -> (p: ServicePlan)
        ensures
            p@ == self.spec_plan(ServiceAction::Stop, name@),
    {
        match self {
            ServiceBackend::Systemd(e) => e.stop_service(name),
            ServiceBackend::Launchd(e) => e.stop_service(name),
        }
    }

    fn restart_service(&self, name: &str) -> (p: ServicePlan)
        ensures
            p@ == self.spec_plan(ServiceAction::Restart, name@),
    {
        match self {
            ServiceBackend::Systemd(e) => e.restart_service(name),
            ServiceBackend::Launchd(e) => e.restart_service(name),
        }
    }

    fn enable_service(&self, name: &str) -> (p: ServicePlan)
        ensures
            p@ == self.spec_plan(ServiceAction::Enable, name@),
    {
        match self {
            ServiceBackend::Systemd(e) => e.enable_service(name),
            ServiceBackend::Launchd(e) => e.enable_service(name),
        }
    }

    fn disable_service(&self, name: &str) -> (p: ServicePlan)
        ensures
            p@ == self.spec_plan(ServiceAction::Disable, name@),
    {
        match self {
            ServiceBackend::Systemd(e) => e.disable_service(name),
            ServiceBackend::Launchd(e) => e.disable_service(name),
        }
    }

    fn get_service_logs(&self, name: &str, lines: usize) -> (p: LogsPlan)
        ensures
            p@ == self.spec_logs_plan(name@, lines as nat),
    {
        match self {
            ServiceBackend::Systemd(e) => e.get_service_logs(name, lines),
            ServiceBackend::Launchd(e) => e.get_service_logs(name, lines),
        }
    }
}

// ---------------------------------------------------------------------------
// Platform
// ---------------------------------------------------------------------------

/// The operating system the application runs on.
#[derive(Debug, Clone, Copy, PartialEq, Eq, Structural)]
pub enum Platform {
    MacOs,
    Linux,
    Unsupported,
}

/// What the application needs to know of the platform.
pub trait PlatformAbstraction {
    fn get_platform_name(&self) -> String;
}

/// Access to platform-specific facilities.
pub struct PlatformManager {
    platform: Platform,
}

/// The name shown for a platform.
pub open spec fn platform_name(p: Platform) -> Seq<char> {
    match p {
        Platform::MacOs => "macOS"@,
        Platform::Linux => "Linux"@,
        Platform::Unsupported => "Unsupported"@,
    }
}

impl PlatformManager {
    /// The platform this manager stands for.
    pub closed spec fn platform(&self) -> Platform {
        self.platform
    }

    /// A manager for `platform`; this never fails.
    pub fn new(platform: Platform) -> (r: AppResult<PlatformManager>)
        ensures
            r is Ok,
            r->Ok_0.platform() == platform,
    {
        Ok(PlatformManager { platform })
    }

    /// A fresh service engine for the platform: launchd on macOS, systemd on
    /// Linux, with no services listed yet. Other platforms have none.
    pub fn create_service_engine(&self) -> (e: ServiceBackend)
        requires
            self.platform() != Platform::Unsupported,
        ensures
            self.platform() == Platform::MacOs ==> e is Launchd,
            self.platform() == Platform::Linux ==> e is Systemd,
            e.spec_services() == Seq::<ServiceInfoView>::empty(),
    {
        match self.platform {
            Platform::MacOs => ServiceBackend::Launchd(LaunchdEngine::new()),
            _ => ServiceBackend::Systemd(SystemdEngine::new()),
        }
    }
}

impl PlatformAbstraction for PlatformManager {
    fn get_platform_name(&self) -> (s: String)
        ensures
            s@ == platform_name(self.platform()),
    {
        match self.platform {
            Platform::MacOs => String::from_str("macOS"),
            Platform::Linux => String::from_str("Linux"),
            Platform::Unsupported => String::from_str("Unsupported"),
        }
    }
}

} // verus!
