//! System services: their model, the engines that manage them, and the manager.
//!
//! Managing a service means running a program (`systemctl`, `launchctl`, ...).
//! Engines never run programs themselves: each operation yields the commands
//! to run, the host runs them in order and hands back what happened, and the
//! engine turns that into the operation's result.
use vstd::prelude::*;
use crate::errors::{AppError, AppErrorView, AppResult, platform_error, spec_with_context};
use crate::text::{copy_str, lines, views, spec_lines};
use crate::platform::{ServiceBackend};

verus! {

/// The state a service is in.
#[derive(Debug, Clone, Copy, PartialEq, Eq, Structural)]
pub enum ServiceStatus {
    Running,
    Stopped,
    Failed,
    Restarting,
    Unknown,
}

/// One service as the platform lists it.
#[derive(Debug, Clone)]
pub struct ServiceInfo {
    pub name: String,
    pub description: String,
    pub status: ServiceStatus,
    pub is_enabled: bool,
}

/// A [`ServiceInfo`] with its texts taken by their characters.
pub struct ServiceInfoView {
    pub name: Seq<char>,
    pub description: Seq<char>,
    pub status: ServiceStatus,
    pub is_enabled: bool,
}

impl View for ServiceInfo {
    type V = ServiceInfoView;

    open spec fn view(&self) -> ServiceInfoView {
        ServiceInfoView {
            name: self.name@,
            description: self.description@,
            status: self.status,
            is_enabled: self.is_enabled,
        }
    }
}

/// The views of a list of services.
pub open spec fn service_views(v: Seq<ServiceInfo>) -> Seq<ServiceInfoView> {
    v.map_values(|s: ServiceInfo| s@)
}

impl ServiceInfo {
    /// A copy of this service.
    pub fn duplicate(&self) -> (c: ServiceInfo)
        ensures
            c@ == self@,
    {
        ServiceInfo {
            name: copy_str(self.name.as_str()),
            description: copy_str(self.description.as_str()),
            status: self.status,
            is_enabled: self.is_enabled,
        }
    }
}

/// A copy of a list of services.
pub fn copy_services(v: &Vec<ServiceInfo>) -> (c: Vec<ServiceInfo>)
    ensures
        service_views(c@) == service_views(v@),
{
    let mut c: Vec<ServiceInfo> = Vec::new();
    let mut i: usize = 0;
    while i < v.len()
        invariant
            i <= v@.len(),
            c@.len() == i,
            forall|k: int| 0 <= k < i ==> (#[trigger] c@[k])@ == v@[k]@,
        decreases v@.len() - i,
    {
        c.push(v[i].duplicate());
        i = i + 1;
    }
    assert(service_views(c@) =~= service_views(v@));
    c
}

// ---------------------------------------------------------------------------
// Commands and their outcomes
// ---------------------------------------------------------------------------

/// A program to run, with its arguments, and the context of the error
/// reported when it cannot be started.
pub struct ServiceStep {
    pub program: String,
    pub args: Vec<String>,
    pub failure: String,
}

/// A [`ServiceStep`] taken by its characters.
pub struct StepView {
    pub program: Seq<char>,
    pub args: Seq<Seq<char>>,
    pub failure: Seq<char>,
}

impl View for ServiceStep {
    type V = StepView;

    open spec fn view(&self) -> StepView {
        StepView { program: self.program@, args: views(self.args@), failure: self.failure@ }
    }
}

/// What became of a command the host was asked to run.
pub enum CommandOutcome {
    /// The program ran; this is what it wrote to its standard output.
    Completed { stdout: String },
    /// The program could not be started, for this reason.
    NotStarted { reason: String },
}

/// The commands an operation needs, or why it cannot be done at all.
pub enum ServicePlan {
    Run(Vec<ServiceStep>),
    Refused(AppError),
}

/// A [`ServicePlan`] taken by its characters.
pub enum PlanView {
    Run(Seq<StepView>),
    Refused(AppErrorView),
}

impl View for ServicePlan {
    type V = PlanView;

    open spec fn view(&self) -> PlanView {
        match self {
            ServicePlan::Run(steps) => PlanView::Run(steps@.map_values(|s: ServiceStep| s@)),
            ServicePlan::Refused(e) => PlanView::Refused(e@),
        }
    }
}

/// How the log lines of a service are obtained.
pub enum LogsPlan {
    /// Run this command; its output lines are the logs.
    Run(ServiceStep),
    /// The logs are these lines, with nothing to run.
    Ready(Vec<String>),
}

/// A [`LogsPlan`] taken by its characters.
pub enum LogsPlanView {
    Run(StepView),
    Ready(Seq<Seq<char>>),
}

impl View for LogsPlan {
    type V = LogsPlanView;

    open spec fn view(&self) -> LogsPlanView {
        match self {
            LogsPlan::Run(s) => LogsPlanView::Run(s@),
            LogsPlan::Ready(l) => LogsPlanView::Ready(views(l@)),
        }
    }
}

/// The first position in `outcomes` at which a command could not be started.
pub open spec fn first_not_started(outcomes: Seq<CommandOutcome>) -> Option<int>
    decreases outcomes.len(),
{
    if outcomes.len() == 0 {
        None
    } else {
        match first_not_started(outcomes.drop_last()) {
            Some(k) => Some(k),
            None => if outcomes.last() is NotStarted {
                Some(outcomes.len() - 1)
            } else {
                None
            },
        }
    }
}

/// The step a plan's run goes on with: the next one, while every step so
/// far could be started and some are left; none once one could not be
/// started or all have run.
pub open spec fn spec_next_step(steps: nat, outcomes: Seq<CommandOutcome>) -> Option<nat> {
    if first_not_started(outcomes) is None && outcomes.len() < steps {
        Some(outcomes.len())
    } else {
        None
    }
}

/// The position of the step to run next, given what became of the steps
/// run so far (`outcomes[k]` of step `k`).
pub fn next_step(steps: usize, outcomes: &Vec<CommandOutcome>) -> (r: Option<usize>)
    ensures
        r == match spec_next_step(steps as nat, outcomes@) {
            Some(k) => Some(k as usize),
            None => None,
        },
{
    let mut i: usize = 0;
    while i < outcomes.len()
        invariant
            i <= outcomes@.len(),
            first_not_started(outcomes@.take(i as int)) is None,
        decreases outcomes@.len() - i,
    {
        assert(outcomes@.take(i + 1).drop_last() == outcomes@.take(i as int));
        assert(outcomes@.take(i + 1).last() == outcomes@[i as int]);
        match &outcomes[i] {
            CommandOutcome::NotStarted { .. } => {
                proof {
                    lemma_first_not_started_prefix(outcomes@, i as int);
                }
                return None;
            },
            CommandOutcome::Completed { .. } => {},
        }
        i = i + 1;
    }
    assert(outcomes@.take(outcomes@.len() as int) == outcomes@);
    if outcomes.len() < steps {
        Some(outcomes.len())
    } else {
        None
    }
}

/// What a plan's run comes to: the error of the first command that could
/// not be started, named by its step's context, or success.
pub open spec fn spec_run_result(steps: Seq<StepView>, outcomes: Seq<CommandOutcome>) -> Option<
    AppErrorView,
> {
    match first_not_started(outcomes) {
        Some(k) => Some(
            AppErrorView::PlatformError(
                spec_with_context(steps[k].failure, outcomes[k]->NotStarted_reason@),
            ),
        ),
        None => None,
    }
}

/// Settles a plan once the host has run its steps in order, stopping after the
/// first that could not be started: `outcomes[k]` is what became of `steps[k]`.
pub fn run_result(steps: &Vec<ServiceStep>, outcomes: &Vec<CommandOutcome>) -> (r: AppResult<()>)
    requires
        outcomes@.len() <= steps@.len(),
    ensures
        match spec_run_result(steps@.map_values(|s: ServiceStep| s@), outcomes@) {
            Some(e) => r is Err && r->Err_0@ == e,
            None => r is Ok,
        },
{
    let ghost sv = steps@.map_values(|s: ServiceStep| s@);
    let mut i: usize = 0;
    while i < outcomes.len()
        invariant
            i <= outcomes@.len() <= steps@.len(),
            sv == steps@.map_values(|s: ServiceStep| s@),
            first_not_started(outcomes@.take(i as int)) is None,
        decreases outcomes@.len() - i,
    {
        assert(outcomes@.take(i + 1).drop_last() == outcomes@.take(i as int));
        match &outcomes[i] {
            CommandOutcome::NotStarted { reason } => {
                proof {
                    lemma_first_not_started_prefix(outcomes@, i as int);
                }
                return Err(platform_error(steps[i].failure.as_str(), reason.as_str()));
            },
            CommandOutcome::Completed { .. } => {},
        }
        i = i + 1;
    }
    assert(outcomes@.take(outcomes@.len() as int) == outcomes@);
    Ok(())
}

proof fn lemma_first_not_started_prefix(outcomes: Seq<CommandOutcome>, i: int)
    requires
        0 <= i < outcomes.len(),
        first_not_started(outcomes.take(i)) is None,
        outcomes[i] is NotStarted,
    ensures
        first_not_started(outcomes) == Some(i),
    decreases outcomes.len(),
{
    if i == outcomes.len() - 1 {
        assert(outcomes.drop_last() == outcomes.take(i));
    } else {
        assert(outcomes.drop_last().take(i) == outcomes.take(i));
        lemma_first_not_started_prefix(outcomes.drop_last(), i);
    }
}

proof fn lemma_first_not_started_is_first(outcomes: Seq<CommandOutcome>)
    ensures
        first_not_started(outcomes) is None <==> forall|j: int|
            0 <= j < outcomes.len() ==> (#[trigger] outcomes[j]) is Completed,
        first_not_started(outcomes) matches Some(k) ==> 0 <= k < outcomes.len()
            && outcomes[k] is NotStarted && forall|j: int|
            0 <= j < k ==> (#[trigger] outcomes[j]) is Completed,
    decreases outcomes.len(),
{
    if outcomes.len() > 0 {
        let d = outcomes.drop_last();
        lemma_first_not_started_is_first(d);
        assert forall|j: int| 0 <= j < d.len() implies d[j] == outcomes[j] by {}
        if first_not_started(outcomes) is None {
            assert forall|j: int| 0 <= j < outcomes.len() implies (#[trigger] outcomes[j]) is Completed by {
                if j < d.len() {
                    assert(d[j] == outcomes[j]);
                }
            }
        }
        if first_not_started(d) is Some {
            let k = first_not_started(d)->Some_0;
            assert(!(outcomes[k] is Completed));
        }
    }
}

/// A plan's run succeeds exactly when every command it ran could be
/// started; otherwise its error is that of the first command that could
/// not be, `context: reason`, the context being that step's own.
pub proof fn lemma_run_result_first_failure(steps: Seq<StepView>, outcomes: Seq<CommandOutcome>)
    ensures
        spec_run_result(steps, outcomes) is None <==> forall|j: int|
            0 <= j < outcomes.len() ==> (#[trigger] outcomes[j]) is Completed,
        forall|k: int|
            0 <= k < outcomes.len() && (#[trigger] outcomes[k]) is NotStarted && (forall|j: int|
                0 <= j < k ==> (#[trigger] outcomes[j]) is Completed) ==> spec_run_result(
                steps,
                outcomes,
            ) == Some(
                AppErrorView::PlatformError(
                    steps[k].failure + ": "@ + outcomes[k]->NotStarted_reason@,
                ),
            ),
{
    lemma_first_not_started_is_first(outcomes);
    assert forall|k: int|
        0 <= k < outcomes.len() && (#[trigger] outcomes[k]) is NotStarted && (forall|j: int|
            0 <= j < k ==> (#[trigger] outcomes[j]) is Completed) implies first_not_started(outcomes)
        == Some(k) by {
        let f = first_not_started(outcomes)->Some_0;
        if f < k {
            assert(outcomes[f] is Completed);
        }
        if f > k {
            assert(outcomes[k] is Completed);
        }
    }
}

/// A run goes on with the step after the last one run while every command
/// so far could be started and steps are left, and stops otherwise.
pub proof fn lemma_next_step_goes_on(steps: nat, outcomes: Seq<CommandOutcome>)
    ensures
        spec_next_step(steps, outcomes) is Some <==> outcomes.len() < steps && forall|j: int|
            0 <= j < outcomes.len() ==> (#[trigger] outcomes[j]) is Completed,
        spec_next_step(steps, outcomes) matches Some(n) ==> n == outcomes.len(),
{
    lemma_first_not_started_is_first(outcomes);
}

/// What a log command's run comes to: its output lines, or the error
/// named by the step's context.
pub open spec fn spec_logs_result(step: StepView, outcome: CommandOutcome) -> core::result::Result<
    Seq<Seq<char>>,
    AppErrorView,
> {
    match outcome {
        CommandOutcome::Completed { stdout } => Ok(spec_lines(stdout@)),
        CommandOutcome::NotStarted { reason } => Err(
            AppErrorView::PlatformError(spec_with_context(step.failure, reason@)),
        ),
    }
}

/// Settles a log plan's command once the host has run it.
pub fn logs_result(step: &ServiceStep, outcome: &CommandOutcome) -> (r: AppResult<Vec<String>>)
    ensures
        match spec_logs_result(step@, *outcome) {
            Ok(l) => r is Ok && views(r->Ok_0@) == l,
            Err(e) => r is Err && r->Err_0@ == e,
        },
{
    match outcome {
        CommandOutcome::Completed { stdout } => Ok(lines(stdout.as_str())),
        CommandOutcome::NotStarted { reason } => Err(
            platform_error(step.failure.as_str(), reason.as_str()),
        ),
    }
}

/// The operations on a service that a user can ask for.
#[derive(Debug, Clone, Copy, PartialEq, Eq, Structural)]
pub enum ServiceAction {
    Start,
    Stop,
    Restart,
    Enable,
    Disable,
}

// ---------------------------------------------------------------------------
// Engines and the manager
// ---------------------------------------------------------------------------

/// A platform's way of listing and controlling services.
pub trait ServiceEngine {
    /// The command whose output lists the services.
    fn refresh_command(&self) -> ServiceStep;

    /// Takes in what the listing command produced.
    fn refresh(&mut self, outcome: CommandOutcome) -> AppResult<()>;

    /// The services as last listed.
    fn get_services(&self) -> Vec<ServiceInfo>;

    fn start_service(&self, name: &str) -> ServicePlan;

    fn stop_service(&self, name: &str) -> ServicePlan;

    fn restart_service(&self, name: &str) -> ServicePlan;

    fn enable_service(&self, name: &str) -> ServicePlan;

    fn disable_service(&self, name: &str) -> ServicePlan;

    /// How to obtain the last `lines` log lines of a service.
    fn get_service_logs(&self, name: &str, lines: usize) -> LogsPlan;
}

/// Front to the platform's service engine.
pub struct ServiceManager {
    engine: ServiceBackend,
}

impl ServiceManager {
    /// The engine the manager forwards to.
    pub closed spec fn engine(&self) -> ServiceBackend {
        self.engine
    }

    pub fn new(engine: ServiceBackend) -> (m: ServiceManager)
        ensures
            m.engine() == engine,
    {
        ServiceManager { engine }
    }

    /// The command whose output lists the services.
    pub fn refresh_command(&self) -> (s: ServiceStep)
        ensures
            s@ == self.engine().spec_refresh_step(),
    {
        self.engine.refresh_command()
    }

    /// Takes in what the listing command produced.
    pub fn refresh(&mut self, outcome: CommandOutcome) -> (r: AppResult<()>)
        ensures
            old(self).engine().spec_refresh_result(outcome, r, final(self).engine()),
    {
        self.engine.refresh(outcome)
    }

    pub fn get_services(&self) -> (v: Vec<ServiceInfo>)
        ensures
            service_views(v@) == self.engine().spec_services(),
    {
        self.engine.get_services()
    }

    pub fn start_service(&self, name: &str) -> (p: ServicePlan)
        ensures
            p@ == self.engine().spec_plan(ServiceAction::Start, name@),
    {
        self.engine.start_service(name)
    }

    pub fn stop_service(&self, name: &str) -> (p: ServicePlan)
        ensures
            p@ == self.engine().spec_plan(ServiceAction::Stop, name@),
    {
        self.engine.stop_service(name)
    }

    pub fn restart_service(&self, name: &str) -> (p: ServicePlan)
        ensures
            p@ == self.engine().spec_plan(ServiceAction::Restart, name@),
    {
        self.engine.restart_service(name)
    }

    pub fn enable_service(&self, name: &str) -> (p: ServicePlan)
        ensures
            p@ == self.engine().spec_plan(ServiceAction::Enable, name@),
    {
        self.engine.enable_service(name)
    }

    pub fn disable_service(&self, name: &str) -> (p: ServicePlan)
        ensures
            p@ == self.engine().spec_plan(ServiceAction::Disable, name@),
    {
        self.engine.disable_service(name)
    }

    pub fn get_service_logs(&self, name: &str, lines: usize) -> (p: LogsPlan)
        ensures
            p@ == self.engine().spec_logs_plan(name@, lines as nat),
    {
        self.engine.get_service_logs(name, lines)
    }
}

} // verus!
