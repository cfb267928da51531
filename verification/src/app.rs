//! The application's decisions: which screen is shown, and what each key or
//! mouse wheel does to the interface and asks of the rest of the system.
//!
//! The host turns terminal events into [`Input`]s, hands them to
//! [`handle_input`] with the lists currently shown, and carries out the
//! returned [`Effect`]s in order.
use vstd::prelude::*;
use crate::configuration::ThemeConfig;
use crate::docker::{ContainerAction, ContainerInfo, ContainerStatus, container_views};
use crate::ports::{PortInfo, port_views};
use crate::processes::ProcessRow;
use crate::screens::{
    DockerListState, LogStateView, LogViewState, PortListState, ProcessListState, ServerListState,
    ServiceListState, SortColumn, WorkspaceListState, clamp_next, clamp_previous, wrap_next,
    wrap_previous, line_count, opt_view, scrolled_down, scrolled_up, in_range,
    lemma_navigation_stays_in_range, lemma_wrap_round_trip,
};
use crate::services::{ServiceAction, ServiceInfo, ServiceStatus, service_views};
use crate::filters::{hit, hits};
use crate::screens::ServerInfo;
use crate::text::{
    copy_str, decimal, join_from, lowercase, pop_char, push_char, replace_char, spec_decimal,
    spec_join, spec_lowercase, spec_replace_char, spec_words, split_whitespace, str_eq, views,
};
use crate::workspaces::{WorkspaceInfo, WorkspaceItem, WorkspaceItemType, workspace_views, item_views};

verus! {

// ---------------------------------------------------------------------------
// Screens
// ---------------------------------------------------------------------------

/// The screen being shown.
#[derive(Debug, Clone, Copy, PartialEq, Eq, Structural)]
pub enum ActiveScreen {
    ProcessList,
    ProcessDetails,
    PortList,
    ServiceList,
    DockerList,
    WorkspaceList,
    LogView,
    ServerList,
}

/// The screen shown at start for a configured default view: the container,
/// service, workspace or port list when named, else the process list.
pub open spec fn spec_initial_screen(view: Option<Seq<char>>) -> ActiveScreen {
    match view {
        Some(v) => if v == "DockerList"@ {
            ActiveScreen::DockerList
        } else if v == "ServiceList"@ {
            ActiveScreen::ServiceList
        } else if v == "WorkspaceList"@ {
            ActiveScreen::WorkspaceList
        } else if v == "PortList"@ {
            ActiveScreen::PortList
        } else {
            ActiveScreen::ProcessList
        },
        None => ActiveScreen::ProcessList,
    }
}

/// The default view a theme names, if any.
pub open spec fn theme_view(theme: Option<ThemeConfig>) -> Option<Seq<char>> {
    match theme {
        Some(t) => match t.default_view {
            Some(v) => Some(v@),
            None => None,
        },
        None => None,
    }
}

/// The screen shown at start.
pub fn initial_screen(theme: &Option<ThemeConfig>) -> (s: ActiveScreen)
    ensures
        s == spec_initial_screen(theme_view(*theme)),
{
    match theme {
        Some(t) => match &t.default_view {
            Some(v) => {
                let v = v.as_str();
                if str_eq(v, "DockerList") {
                    ActiveScreen::DockerList
                } else if str_eq(v, "ServiceList") {
                    ActiveScreen::ServiceList
                } else if str_eq(v, "WorkspaceList") {
                    ActiveScreen::WorkspaceList
                } else if str_eq(v, "PortList") {
                    ActiveScreen::PortList
                } else {
                    ActiveScreen::ProcessList
                }
            },
            None => ActiveScreen::ProcessList,
        },
        None => ActiveScreen::ProcessList,
    }
}

/// The screen `V` switches to: processes, services, containers, workspaces,
/// ports, and round again; from a process's details to services, from the
/// server list to the processes; from the logs back to where they were opened.
pub open spec fn cycled(cur: ActiveScreen, prev: ActiveScreen) -> ActiveScreen {
    match cur {
        ActiveScreen::ProcessList => ActiveScreen::ServiceList,
        ActiveScreen::ProcessDetails => ActiveScreen::ServiceList,
        ActiveScreen::ServiceList => ActiveScreen::DockerList,
        ActiveScreen::DockerList => ActiveScreen::WorkspaceList,
        ActiveScreen::WorkspaceList => ActiveScreen::PortList,
        ActiveScreen::PortList => ActiveScreen::ProcessList,
        ActiveScreen::ServerList => ActiveScreen::ProcessList,
        ActiveScreen::LogView => prev,
    }
}

/// The five list screens that `V` walks through.
pub open spec fn is_main_view(s: ActiveScreen) -> bool {
    s != ActiveScreen::ProcessDetails && s != ActiveScreen::LogView && s != ActiveScreen::ServerList
}

/// Pressing `V` five times on one of the five list screens comes back to it,
/// having shown each of them once; from any other screen but the logs, `V`
/// leads into that round.
pub proof fn lemma_view_cycle(s: ActiveScreen, p: ActiveScreen)
    ensures
        is_main_view(s) ==> cycled(cycled(cycled(cycled(cycled(s, p), p), p), p), p) == s,
        is_main_view(s) ==> cycled(s, p) != s,
        s != ActiveScreen::LogView ==> is_main_view(cycled(s, p)),
{
}

// ---------------------------------------------------------------------------
// Inputs, lists and effects
// ---------------------------------------------------------------------------

/// A key press.
#[derive(Debug, Clone, Copy, PartialEq, Eq, Structural)]
pub enum Key {
    Char(char),
    Enter,
    Esc,
    Backspace,
    Up,
    Down,
    Tab,
    Other,
}

/// A terminal event.
#[derive(Debug, Clone, Copy, PartialEq, Eq, Structural)]
pub enum Input {
    Key(Key),
    ScrollDown,
    ScrollUp,
    Other,
}

/// The rows currently shown on each screen.
pub struct Lists {
    pub processes: Vec<ProcessRow>,
    pub ports: Vec<PortInfo>,
    pub services: Vec<ServiceInfo>,
    pub containers: Vec<ContainerInfo>,
    pub workspaces: Vec<WorkspaceInfo>,
    pub server_count: usize,
}

/// What the host is asked to do.
pub enum Effect {
    /// Show this message for a few seconds.
    Notify(String),
    /// Recompute the shown processes from the search query.
    RefreshProcesses,
    /// Reorder the shown processes.
    SortProcesses,
    RefreshPorts,
    RefreshServices,
    RefreshContainers,
    RefreshWorkspaces,
    KillProcess(u32),
    /// Kill every process (of the full list) with exactly this name.
    KillProcessesNamed(String),
    /// Add an item to the first workspace, creating a `Default` one first
    /// when `create_default` says no workspace is shown.
    AddToWorkspace { item_type: WorkspaceItemType, name: String, create_default: bool },
    Service(ServiceAction, String),
    /// Load a service's logs into the log screen; on failure show a line
    /// saying so when `fallback` is set, else keep the screen empty.
    LoadServiceLogs { name: String, fallback: bool },
    Container(ContainerAction, String),
    LoadContainerLogs { id: String, fallback: bool },
    ReloadServiceLogs(String),
    ReloadContainerLogs(String),
    /// Open an interactive shell in a container.
    OpenShell(String),
    CreateWorkspace(String),
    DeleteWorkspace(i64),
    RemoveWorkspaceItem(i64),
    /// Write the log lines to a file.
    ExportLogs,
    ConnectServer(usize),
}

/// An [`Effect`] taken by its characters.
pub enum EffectView {
    Notify(Seq<char>),
    RefreshProcesses,
    SortProcesses,
    RefreshPorts,
    RefreshServices,
    RefreshContainers,
    RefreshWorkspaces,
    KillProcess(u32),
    KillProcessesNamed(Seq<char>),
    AddToWorkspace { item_type: WorkspaceItemType, name: Seq<char>, create_default: bool },
    Service(ServiceAction, Seq<char>),
    LoadServiceLogs { name: Seq<char>, fallback: bool },
    Container(ContainerAction, Seq<char>),
    LoadContainerLogs { id: Seq<char>, fallback: bool },
    ReloadServiceLogs(Seq<char>),
    ReloadContainerLogs(Seq<char>),
    OpenShell(Seq<char>),
    CreateWorkspace(Seq<char>),
    DeleteWorkspace(int),
    RemoveWorkspaceItem(int),
    ExportLogs,
    ConnectServer(nat),
}

impl View for Effect {
    type V = EffectView;

    open spec fn view(&self) -> EffectView {
        match self {
            Effect::Notify(s) => EffectView::Notify(s@),
            Effect::RefreshProcesses => EffectView::RefreshProcesses,
            Effect::SortProcesses => EffectView::SortProcesses,
            Effect::RefreshPorts => EffectView::RefreshPorts,
            Effect::RefreshServices => EffectView::RefreshServices,
            Effect::RefreshContainers => EffectView::RefreshContainers,
            Effect::RefreshWorkspaces => EffectView::RefreshWorkspaces,
            Effect::KillProcess(p) => EffectView::KillProcess(*p),
            Effect::KillProcessesNamed(s) => EffectView::KillProcessesNamed(s@),
            Effect::AddToWorkspace { item_type, name, create_default } => EffectView::AddToWorkspace {
                item_type: *item_type,
                name: name@,
                create_default: *create_default,
            },
            Effect::Service(a, s) => EffectView::Service(*a, s@),
            Effect::LoadServiceLogs { name, fallback } => EffectView::LoadServiceLogs {
                name: name@,
                fallback: *fallback,
            },
            Effect::Container(a, s) => EffectView::Container(*a, s@),
            Effect::LoadContainerLogs { id, fallback } => EffectView::LoadContainerLogs {
                id: id@,
                fallback: *fallback,
            },
            Effect::ReloadServiceLogs(s) => EffectView::ReloadServiceLogs(s@),
            Effect::ReloadContainerLogs(s) => EffectView::ReloadContainerLogs(s@),
            Effect::OpenShell(s) => EffectView::OpenShell(s@),
            Effect::CreateWorkspace(s) => EffectView::CreateWorkspace(s@),
            Effect::DeleteWorkspace(i) => EffectView::DeleteWorkspace(*i as int),
            Effect::RemoveWorkspaceItem(i) => EffectView::RemoveWorkspaceItem(*i as int),
            Effect::ExportLogs => EffectView::ExportLogs,
            Effect::ConnectServer(i) => EffectView::ConnectServer(*i as nat),
        }
    }
}

/// The views of a list of effects.
pub open spec fn effect_views(v: Seq<Effect>) -> Seq<EffectView> {
    v.map_values(|e: Effect| e@)
}

// ---------------------------------------------------------------------------
// The interface state
// ---------------------------------------------------------------------------

/// Everything the interface remembers between events.
pub struct UiState {
    pub active_screen: ActiveScreen,
    pub previous_screen: ActiveScreen,
    pub should_quit: bool,
    pub is_command_palette: bool,
    pub command_prompt_text: String,
    pub is_prompting_workspace: bool,
    pub workspace_prompt_text: String,
    pub selected_process_pid: Option<u32>,
    pub process_list: ProcessListState,
    pub port_list: PortListState,
    pub service_list: ServiceListState,
    pub docker_list: DockerListState,
    pub workspace_list: WorkspaceListState,
    pub server_list: ServerListState,
    pub log_view: LogViewState,
}

/// A searchable list's state by value.
pub struct ListView {
    pub selected: Option<usize>,
    pub query: Seq<char>,
    pub searching: bool,
}

/// The process list's state by value.
pub struct ProcessListView {
    pub selected: Option<usize>,
    pub query: Seq<char>,
    pub searching: bool,
    pub sort_by: SortColumn,
    pub sort_descending: bool,
    pub is_tree_view: bool,
}

/// The workspace list's state by value.
pub struct WorkspaceListView {
    pub selected: Option<usize>,
    pub item_selected: Option<usize>,
    pub query: Seq<char>,
    pub searching: bool,
    pub focus_items: bool,
}

/// The whole interface state by value.
pub struct UiView {
    pub active: ActiveScreen,
    pub previous: ActiveScreen,
    pub quit: bool,
    pub palette: bool,
    pub palette_text: Seq<char>,
    pub prompting: bool,
    pub prompt_text: Seq<char>,
    pub selected_pid: Option<u32>,
    pub processes: ProcessListView,
    pub ports: ListView,
    pub services: ListView,
    pub docker: ListView,
    pub workspaces: WorkspaceListView,
    pub server_selected: Option<usize>,
    pub log: LogStateView,
}

impl View for UiState {
    type V = UiView;

    open spec fn view(&self) -> UiView {
        UiView {
            active: self.active_screen,
            previous: self.previous_screen,
            quit: self.should_quit,
            palette: self.is_command_palette,
            palette_text: self.command_prompt_text@,
            prompting: self.is_prompting_workspace,
            prompt_text: self.workspace_prompt_text@,
            selected_pid: self.selected_process_pid,
            processes: ProcessListView {
                selected: self.process_list.selected,
                query: self.process_list.search_query@,
                searching: self.process_list.is_searching,
                sort_by: self.process_list.sort_by,
                sort_descending: self.process_list.sort_descending,
                is_tree_view: self.process_list.is_tree_view,
            },
            ports: ListView {
                selected: self.port_list.selected,
                query: self.port_list.search_query@,
                searching: self.port_list.is_searching,
            },
            services: ListView {
                selected: self.service_list.selected,
                query: self.service_list.search_query@,
                searching: self.service_list.is_searching,
            },
            docker: ListView {
                selected: self.docker_list.selected,
                query: self.docker_list.search_query@,
                searching: self.docker_list.is_searching,
            },
            workspaces: WorkspaceListView {
                selected: self.workspace_list.selected,
                item_selected: self.workspace_list.item_selected,
                query: self.workspace_list.search_query@,
                searching: self.workspace_list.is_searching,
                focus_items: self.workspace_list.focus_items,
            },
            server_selected: self.server_list.selected,
            log: self.log_view@,
        }
    }
}

/// An empty search box with nothing selected.
pub open spec fn fresh_list() -> ListView {
    ListView { selected: None, query: seq![], searching: false }
}

/// The interface at start: `screen` shown (and remembered as the previous
/// one), nothing selected, searched or open; processes by CPU, busiest first,
/// as a flat list; an empty log that follows its last line.
pub open spec fn initial_ui(screen: ActiveScreen) -> UiView {
    UiView {
        active: screen,
        previous: screen,
        quit: false,
        palette: false,
        palette_text: seq![],
        prompting: false,
        prompt_text: seq![],
        selected_pid: None,
        processes: ProcessListView {
            selected: None,
            query: seq![],
            searching: false,
            sort_by: SortColumn::Cpu,
            sort_descending: true,
            is_tree_view: false,
        },
        ports: fresh_list(),
        services: fresh_list(),
        docker: fresh_list(),
        workspaces: WorkspaceListView {
            selected: None,
            item_selected: None,
            query: seq![],
            searching: false,
            focus_items: false,
        },
        server_selected: None,
        log: fresh_log(seq![], None, None),
    }
}

impl UiState {
    /// The state at start, with `screen` shown.
    pub fn new(screen: ActiveScreen) -> (s: UiState)
        ensures
            s@ == initial_ui(screen),
    {
        let s = UiState {
            active_screen: screen,
            previous_screen: screen,
            should_quit: false,
            is_command_palette: false,
            command_prompt_text: String::new(),
            is_prompting_workspace: false,
            workspace_prompt_text: String::new(),
            selected_process_pid: None,
            process_list: ProcessListState::new(),
            port_list: PortListState::new(),
            service_list: ServiceListState::new(),
            docker_list: DockerListState::new(),
            workspace_list: WorkspaceListState::new(),
            server_list: ServerListState::new(),
            log_view: LogViewState::new(),
        };
        assert(s@.log.logs =~= Seq::<Seq<char>>::empty());
        s
    }
}

// ---------------------------------------------------------------------------
// Texts
// ---------------------------------------------------------------------------

/// `prefix` followed by `name`.
pub open spec fn said(prefix: Seq<char>, name: Seq<char>) -> Seq<char> {
    prefix + name
}

fn say(prefix: &str, name: &str) -> (s: String)
    ensures
        s@ == said(prefix@, name@),
{
    copy_str(prefix).concat(name)
}

fn notify(prefix: &str, name: &str) -> (e: Effect)
    ensures
        e@ == EffectView::Notify(said(prefix@, name@)),
{
    Effect::Notify(say(prefix, name))
}

fn note(text: &str) -> (e: Effect)
    ensures
        e@ == EffectView::Notify(text@),
{
    Effect::Notify(copy_str(text))
}

fn one(e: Effect) -> (v: Vec<Effect>)
    ensures
        effect_views(v@) == seq![e@],
{
    let ghost ev = e@;
    let v = vec![e];
    assert(effect_views(v@) =~= seq![ev]);
    v
}

fn two(a: Effect, b: Effect) -> (v: Vec<Effect>)
    ensures
        effect_views(v@) == seq![a@, b@],
{
    let ghost (av, bv) = (a@, b@);
    let v = vec![a, b];
    assert(effect_views(v@) =~= seq![av, bv]);
    v
}

fn none() -> (v: Vec<Effect>)
    ensures
        effect_views(v@) == Seq::<EffectView>::empty(),
{
    let v: Vec<Effect> = Vec::new();
    assert(effect_views(v@) =~= Seq::<EffectView>::empty());
    v
}

// ---------------------------------------------------------------------------
// Search boxes
// ---------------------------------------------------------------------------

/// A key typed into a search box: Enter or Esc closes it, a character is
/// added, Backspace removes the last one; only the last two change the query.
pub open spec fn search_key(query: Seq<char>, key: Key) -> (Seq<char>, bool, bool) {
    match key {
        Key::Enter | Key::Esc => (query, false, false),
        Key::Char(c) => (query.push(c), true, true),
        Key::Backspace => (
            if query.len() > 0 {
                query.drop_last()
            } else {
                query
            },
            true,
            true,
        ),
        _ => (query, true, false),
    }
}

fn edit_search(query: &mut String, key: Key) -> (r: (bool, bool))
    ensures
        (final(query)@, r.0, r.1) == search_key(old(query)@, key),
{
    match key {
        Key::Enter | Key::Esc => (false, false),
        Key::Char(c) => {
            push_char(query, c);
            (true, true)
        },
        Key::Backspace => {
            pop_char(query);
            (true, true)
        },
        _ => (true, false),
    }
}

/// The effects of a search key: a refresh when the query changed.
pub open spec fn refresh_if(changed: bool, e: EffectView) -> Seq<EffectView> {
    if changed {
        seq![e]
    } else {
        seq![]
    }
}

// ---------------------------------------------------------------------------
// Selection helpers
// ---------------------------------------------------------------------------

/// The row at the selection, if the selection points at one.
pub open spec fn selected_row<T>(sel: Option<usize>, rows: Seq<T>) -> Option<T> {
    match sel {
        Some(i) => if i < rows.len() {
            Some(rows[i as int])
        } else {
            None
        },
        None => None,
    }
}

fn selected_index(sel: Option<usize>, len: usize) -> (r: Option<usize>)
    ensures
        r == (match sel {
            Some(i) => if i < len {
                Some(i)
            } else {
                None
            },
            None => None,
        }),
{
    match sel {
        Some(i) => if i < len {
            Some(i)
        } else {
            None
        },
        None => None,
    }
}

// ---------------------------------------------------------------------------
// The service list
// ---------------------------------------------------------------------------

/// What a service action is announced as.
pub open spec fn service_note(a: ServiceAction) -> Seq<char> {
    match a {
        ServiceAction::Start => "Starting service "@,
        ServiceAction::Stop => "Stopping service "@,
        ServiceAction::Restart => "Restarting service "@,
        ServiceAction::Enable => "Enabled service "@,
        ServiceAction::Disable => "Disabled service "@,
    }
}

/// The action a key asks of the selected service in state `status`: `S`
/// stops a running service and starts any other.
pub open spec fn service_key_action(key: Key, status: ServiceStatus) -> Option<ServiceAction> {
    match key {
        Key::Char('S') => Some(
            if status == ServiceStatus::Running {
                ServiceAction::Stop
            } else {
                ServiceAction::Start
            },
        ),
        Key::Char('K') => Some(ServiceAction::Stop),
        Key::Char('R') => Some(ServiceAction::Restart),
        Key::Char('E') => Some(ServiceAction::Enable),
        Key::Char('D') => Some(ServiceAction::Disable),
        _ => None,
    }
}

/// A fresh log screen for a source.
pub open spec fn fresh_log(
    title: Seq<char>,
    service: Option<Seq<char>>,
    container: Option<Seq<char>>,
) -> LogStateView {
    LogStateView {
        logs: seq![],
        title,
        scroll: 0,
        auto_scroll: true,
        service_name: service,
        container_id: container,
        query: seq![],
        searching: false,
    }
}

/// Opening the logs of a service: a fresh log screen, shown in place of
/// the current one, which Esc returns to.
pub open spec fn open_service_logs(u: UiView, name: Seq<char>) -> UiView {
    UiView {
        log: fresh_log(name, Some(name), None),
        previous: u.active,
        active: ActiveScreen::LogView,
        ..u
    }
}

/// Opening the logs of a container (by id, titled by name).
pub open spec fn open_container_logs(u: UiView, id: Seq<char>, name: Seq<char>) -> UiView {
    UiView {
        log: fresh_log(name, None, Some(id)),
        previous: u.active,
        active: ActiveScreen::LogView,
        ..u
    }
}

/// A key on the service list.
pub open spec fn spec_service_key(u: UiView, services: Seq<ServiceInfo>, ws_empty: bool, key: Key) -> (
    UiView,
    Seq<EffectView>,
) {
    let l = u.services;
    if l.searching {
        let (q, s, changed) = search_key(l.query, key);
        (
            UiView { services: ListView { query: q, searching: s, ..l }, ..u },
            refresh_if(changed, EffectView::RefreshServices),
        )
    } else {
        match key {
            Key::Esc | Key::Char('q') | Key::Char('Q') => (UiView { active: ActiveScreen::ProcessList, ..u }, seq![]),
            Key::Char('/') => (UiView { services: ListView { searching: true, ..l }, ..u }, seq![]),
            Key::Down | Key::Char('j') => (
                UiView {
                    services: ListView {
                        selected: clamp_next(l.selected, services.len()),
                        ..l
                    },
                    ..u
                },
                seq![],
            ),
            Key::Up | Key::Char('k') => (
                UiView {
                    services: ListView {
                        selected: clamp_previous(l.selected, services.len()),
                        ..l
                    },
                    ..u
                },
                seq![],
            ),
            Key::Char('L') | Key::Char('l') => match selected_row(l.selected, services) {
                Some(s) => (
                    open_service_logs(u, s.name@),
                    seq![EffectView::LoadServiceLogs { name: s.name@, fallback: true }],
                ),
                None => (u, seq![]),
            },
            Key::Char('W') | Key::Char('w') => match selected_row(l.selected, services) {
                Some(s) => (
                    u,
                    seq![
                        EffectView::AddToWorkspace {
                            item_type: WorkspaceItemType::Service,
                            name: s.name@,
                            create_default: ws_empty,
                        },
                    ],
                ),
                None => (u, seq![]),
            },
            _ => match selected_row(l.selected, services) {
                Some(s) => match service_key_action(key, s.status) {
                    Some(a) => (
                        u,
                        seq![
                            EffectView::Service(a, s.name@),
                            EffectView::Notify(said(service_note(a), s.name@)),
                        ],
                    ),
                    None => (u, seq![]),
                },
                None => (u, seq![]),
            },
        }
    }
}


fn service_note_text(a: ServiceAction) -> (s: &'static str)
    ensures
        s@ == service_note(a),
{
    match a {
        ServiceAction::Start => "Starting service ",
        ServiceAction::Stop => "Stopping service ",
        ServiceAction::Restart => "Restarting service ",
        ServiceAction::Enable => "Enabled service ",
        ServiceAction::Disable => "Disabled service ",
    }
}

fn service_action_of(key: Key, status: ServiceStatus) -> (a: Option<ServiceAction>)
    ensures
        a == service_key_action(key, status),
{
    match key {
        Key::Char('S') => Some(
            if status == ServiceStatus::Running {
                ServiceAction::Stop
            } else {
                ServiceAction::Start
            },
        ),
        Key::Char('K') => Some(ServiceAction::Stop),
        Key::Char('R') => Some(ServiceAction::Restart),
        Key::Char('E') => Some(ServiceAction::Enable),
        Key::Char('D') => Some(ServiceAction::Disable),
        _ => None,
    }
}

fn fresh_log_state(title: &str, service: Option<String>, container: Option<String>) -> (l: LogViewState)
    ensures
        l@ == fresh_log(title@, opt_view(service), opt_view(container)),
{
    let mut l = LogViewState::new();
    l.title = copy_str(title);
    l.service_name = service;
    l.container_id = container;
    assert(l@.logs =~= Seq::<Seq<char>>::empty());
    l
}

fn show_service_logs(state: &mut UiState, name: &str)
    ensures
        final(state)@ == open_service_logs(old(state)@, name@),
{
    state.log_view = fresh_log_state(name, Some(copy_str(name)), None);
    state.previous_screen = state.active_screen;
    state.active_screen = ActiveScreen::LogView;
}

fn show_container_logs(state: &mut UiState, id: &str, name: &str)
    ensures
        final(state)@ == open_container_logs(old(state)@, id@, name@),
{
    state.log_view = fresh_log_state(name, None, Some(copy_str(id)));
    state.previous_screen = state.active_screen;
    state.active_screen = ActiveScreen::LogView;
}

fn service_search_key(state: &mut UiState, lists: &Lists, key: Key) -> (e: Vec<Effect>)
    requires
        old(state).service_list.is_searching,
    ensures
        (final(state)@, effect_views(e@)) == spec_service_key(
            old(state)@,
            lists.services@,
            lists.workspaces@.len() == 0,
            key,
        ),
{
    let (searching, changed) = edit_search(&mut state.service_list.search_query, key);
    state.service_list.is_searching = searching;
    if changed {
        one(Effect::RefreshServices)
    } else {
        none()
    }
}

fn service_nav_key(state: &mut UiState, lists: &Lists, key: Key) -> (e: Vec<Effect>)
    requires
        !old(state).service_list.is_searching,
        key == Key::Esc || key == Key::Char('q') || key == Key::Char('Q') || key == Key::Char('/') || key == Key::Down
            || key == Key::Char('j') || key == Key::Up || key == Key::Char('k'),
    ensures
        (final(state)@, effect_views(e@)) == spec_service_key(
            old(state)@,
            lists.services@,
            lists.workspaces@.len() == 0,
            key,
        ),
{
    match key {
        Key::Esc | Key::Char('q') | Key::Char('Q') => {
            state.active_screen = ActiveScreen::ProcessList;
        },
        Key::Char('/') => {
            state.service_list.is_searching = true;
        },
        Key::Down | Key::Char('j') => {
            state.service_list.next(lists.services.len());
        },
        _ => {
            state.service_list.previous(lists.services.len());
        },
    }
    none()
}

fn service_item_key(state: &mut UiState, lists: &Lists, key: Key) -> (e: Vec<Effect>)
    requires
        !old(state).service_list.is_searching,
        !(key == Key::Esc || key == Key::Char('q') || key == Key::Char('Q') || key == Key::Char('/') || key == Key::Down
            || key == Key::Char('j') || key == Key::Up || key == Key::Char('k')),
    ensures
        (final(state)@, effect_views(e@)) == spec_service_key(
            old(state)@,
            lists.services@,
            lists.workspaces@.len() == 0,
            key,
        ),
{
    let sel = selected_index(state.service_list.selected, lists.services.len());
    match sel {
        None => none(),
        Some(i) => {
            let name = lists.services[i].name.as_str();
            match key {
                Key::Char('L') | Key::Char('l') => {
                    show_service_logs(state, name);
                    one(Effect::LoadServiceLogs { name: copy_str(name), fallback: true })
                },
                Key::Char('W') | Key::Char('w') => one(
                    Effect::AddToWorkspace {
                        item_type: WorkspaceItemType::Service,
                        name: copy_str(name),
                        create_default: lists.workspaces.len() == 0,
                    },
                ),
                _ => match service_action_of(key, lists.services[i].status) {
                    Some(a) => two(
                        Effect::Service(a, copy_str(name)),
                        notify(service_note_text(a), name),
                    ),
                    None => none(),
                },
            }
        },
    }
}

/// Handles a key on the service list.
pub fn service_key(state: &mut UiState, lists: &Lists, key: Key) -> (e: Vec<Effect>)
    ensures
        (final(state)@, effect_views(e@)) == spec_service_key(
            old(state)@,
            lists.services@,
            lists.workspaces@.len() == 0,
            key,
        ),
{
    if state.service_list.is_searching {
        service_search_key(state, lists, key)
    } else if key == Key::Esc || key == Key::Char('q') || key == Key::Char('Q') || key == Key::Char('/') || key == Key::Down
        || key == Key::Char('j') || key == Key::Up || key == Key::Char('k') {
        service_nav_key(state, lists, key)
    } else {
        service_item_key(state, lists, key)
    }
}


// ---------------------------------------------------------------------------
// The container list
// ---------------------------------------------------------------------------

/// The action a key asks of the selected container in state `status`: `S`
/// stops a running container and starts any other.
pub open spec fn container_key_action(key: Key, status: ContainerStatus) -> Option<ContainerAction> {
    match key {
        Key::Char('S') => Some(
            if status == ContainerStatus::Running {
                ContainerAction::Stop
            } else {
                ContainerAction::Start
            },
        ),
        Key::Char('K') => Some(ContainerAction::Stop),
        Key::Char('R') => Some(ContainerAction::Restart),
        _ => None,
    }
}

/// What a container action is announced as.
pub open spec fn container_note(a: ContainerAction) -> Seq<char> {
    match a {
        ContainerAction::Start => "Starting container "@,
        ContainerAction::Stop => "Stopping container "@,
        ContainerAction::Restart => "Restarting container "@,
    }
}

/// Keys that move around a list screen rather than act on its selection.
pub open spec fn is_nav_key(key: Key) -> bool {
    key == Key::Esc || key == Key::Char('q') || key == Key::Char('Q') || key == Key::Char('/') || key == Key::Down || key
        == Key::Char('j') || key == Key::Up || key == Key::Char('k')
}

fn nav_key(key: Key) -> (b: bool)
    ensures
        b == is_nav_key(key),
{
    key == Key::Esc || key == Key::Char('q') || key == Key::Char('Q') || key == Key::Char('/') || key == Key::Down || key
        == Key::Char('j') || key == Key::Up || key == Key::Char('k')
}

/// A key on the container list.
pub open spec fn spec_docker_key(u: UiView, containers: Seq<ContainerInfo>, ws_empty: bool, key: Key) -> (
    UiView,
    Seq<EffectView>,
) {
    let l = u.docker;
    if l.searching {
        let (q, s, changed) = search_key(l.query, key);
        (
            UiView { docker: ListView { query: q, searching: s, ..l }, ..u },
            refresh_if(changed, EffectView::RefreshContainers),
        )
    } else {
        match key {
            Key::Esc | Key::Char('q') | Key::Char('Q') => (UiView { active: ActiveScreen::ProcessList, ..u }, seq![]),
            Key::Char('/') => (UiView { docker: ListView { searching: true, ..l }, ..u }, seq![]),
            Key::Down | Key::Char('j') => (
                UiView {
                    docker: ListView { selected: clamp_next(l.selected, containers.len()), ..l },
                    ..u
                },
                seq![],
            ),
            Key::Up | Key::Char('k') => (
                UiView {
                    docker: ListView {
                        selected: clamp_previous(l.selected, containers.len()),
                        ..l
                    },
                    ..u
                },
                seq![],
            ),
            _ => match selected_row(l.selected, containers) {
                None => (u, seq![]),
                Some(c) => match key {
                    Key::Char('L') | Key::Char('l') => (
                        open_container_logs(u, c.id@, c.name@),
                        seq![EffectView::LoadContainerLogs { id: c.id@, fallback: true }],
                    ),
                    Key::Char('W') | Key::Char('w') => (
                        u,
                        seq![
                            EffectView::AddToWorkspace {
                                item_type: WorkspaceItemType::Container,
                                name: c.name@,
                                create_default: ws_empty,
                            },
                        ],
                    ),
                    Key::Char('E') | Key::Char('e') => (u, seq![EffectView::OpenShell(c.name@)]),
                    _ => match container_key_action(key, c.status) {
                        Some(a) => (
                            u,
                            seq![
                                EffectView::Container(a, c.name@),
                                EffectView::Notify(said(container_note(a), c.name@)),
                            ],
                        ),
                        None => (u, seq![]),
                    },
                },
            },
        }
    }
}

fn container_note_text(a: ContainerAction) -> (s: &'static str)
    ensures
        s@ == container_note(a),
{
    match a {
        ContainerAction::Start => "Starting container ",
        ContainerAction::Stop => "Stopping container ",
        ContainerAction::Restart => "Restarting container ",
    }
}

fn container_action_of(key: Key, status: ContainerStatus) -> (a: Option<ContainerAction>)
    ensures
        a == container_key_action(key, status),
{
    match key {
        Key::Char('S') => Some(
            if status == ContainerStatus::Running {
                ContainerAction::Stop
            } else {
                ContainerAction::Start
            },
        ),
        Key::Char('K') => Some(ContainerAction::Stop),
        Key::Char('R') => Some(ContainerAction::Restart),
        _ => None,
    }
}

fn docker_search_key(state: &mut UiState, lists: &Lists, key: Key) -> (e: Vec<Effect>)
    requires
        old(state).docker_list.is_searching,
    ensures
        (final(state)@, effect_views(e@)) == spec_docker_key(
            old(state)@,
            lists.containers@,
            lists.workspaces@.len() == 0,
            key,
        ),
{
    let (searching, changed) = edit_search(&mut state.docker_list.search_query, key);
    state.docker_list.is_searching = searching;
    if changed {
        one(Effect::RefreshContainers)
    } else {
        none()
    }
}

fn docker_nav_key(state: &mut UiState, lists: &Lists, key: Key) -> (e: Vec<Effect>)
    requires
        !old(state).docker_list.is_searching,
        is_nav_key(key),
    ensures
        (final(state)@, effect_views(e@)) == spec_docker_key(
            old(state)@,
            lists.containers@,
            lists.workspaces@.len() == 0,
            key,
        ),
{
    match key {
        Key::Esc | Key::Char('q') | Key::Char('Q') => {
            state.active_screen = ActiveScreen::ProcessList;
        },
        Key::Char('/') => {
            state.docker_list.is_searching = true;
        },
        Key::Down | Key::Char('j') => {
            state.docker_list.next(lists.containers.len());
        },
        _ => {
            state.docker_list.previous(lists.containers.len());
        },
    }
    none()
}

fn docker_item_key(state: &mut UiState, lists: &Lists, key: Key) -> (e: Vec<Effect>)
    requires
        !old(state).docker_list.is_searching,
        !is_nav_key(key),
    ensures
        (final(state)@, effect_views(e@)) == spec_docker_key(
            old(state)@,
            lists.containers@,
            lists.workspaces@.len() == 0,
            key,
        ),
{
    let sel = selected_index(state.docker_list.selected, lists.containers.len());
    match sel {
        None => none(),
        Some(i) => {
            let c = &lists.containers[i];
            let name = c.name.as_str();
            match key {
                Key::Char('L') | Key::Char('l') => {
                    show_container_logs(state, c.id.as_str(), name);
                    one(Effect::LoadContainerLogs { id: copy_str(c.id.as_str()), fallback: true })
                },
                Key::Char('W') | Key::Char('w') => one(
                    Effect::AddToWorkspace {
                        item_type: WorkspaceItemType::Container,
                        name: copy_str(name),
                        create_default: lists.workspaces.len() == 0,
                    },
                ),
                Key::Char('E') | Key::Char('e') => one(Effect::OpenShell(copy_str(name))),
                _ => match container_action_of(key, c.status) {
                    Some(a) => two(
                        Effect::Container(a, copy_str(name)),
                        notify(container_note_text(a), name),
                    ),
                    None => none(),
                },
            }
        },
    }
}

/// Handles a key on the container list.
pub fn docker_key(state: &mut UiState, lists: &Lists, key: Key) -> (e: Vec<Effect>)
    ensures
        (final(state)@, effect_views(e@)) == spec_docker_key(
            old(state)@,
            lists.containers@,
            lists.workspaces@.len() == 0,
            key,
        ),
{
    if state.docker_list.is_searching {
        docker_search_key(state, lists, key)
    } else if nav_key(key) {
        docker_nav_key(state, lists, key)
    } else {
        docker_item_key(state, lists, key)
    }
}

// ---------------------------------------------------------------------------
// The process list and a process's details
// ---------------------------------------------------------------------------

/// The column a key sorts by.
pub open spec fn sort_key_column(key: Key) -> Option<SortColumn> {
    match key {
        Key::Char('p') => Some(SortColumn::Pid),
        Key::Char('n') => Some(SortColumn::Name),
        Key::Char('c') => Some(SortColumn::Cpu),
        Key::Char('m') => Some(SortColumn::Memory),
        _ => None,
    }
}

/// A key on the process list.
pub open spec fn spec_process_key(u: UiView, rows: Seq<ProcessRow>, ws_empty: bool, key: Key) -> (
    UiView,
    Seq<EffectView>,
) {
    let l = u.processes;
    if l.searching {
        let (q, s, changed) = search_key(l.query, key);
        (
            UiView { processes: ProcessListView { query: q, searching: s, ..l }, ..u },
            refresh_if(changed, EffectView::RefreshProcesses),
        )
    } else {
        match key {
            Key::Esc | Key::Char('q') | Key::Char('Q') => (UiView { quit: true, ..u }, seq![]),
            Key::Char('/') => (
                UiView { processes: ProcessListView { searching: true, ..l }, ..u },
                seq![],
            ),
            Key::Down | Key::Char('j') => (
                UiView {
                    processes: ProcessListView { selected: clamp_next(l.selected, rows.len()), ..l },
                    ..u
                },
                seq![],
            ),
            Key::Up | Key::Char('k') => (
                UiView {
                    processes: ProcessListView {
                        selected: clamp_previous(l.selected, rows.len()),
                        ..l
                    },
                    ..u
                },
                seq![],
            ),
            Key::Char('T') | Key::Char('t') => (
                UiView { processes: ProcessListView { is_tree_view: !l.is_tree_view, ..l }, ..u },
                seq![
                    EffectView::RefreshProcesses,
                    EffectView::Notify(
                        if !l.is_tree_view {
                            "Tree view enabled"@
                        } else {
                            "Tree view disabled"@
                        },
                    ),
                ],
            ),
            Key::Char('O') | Key::Char('o') => (UiView { active: ActiveScreen::PortList, ..u }, seq![]),
            Key::Char('r') => (
                UiView {
                    processes: ProcessListView { sort_descending: !l.sort_descending, ..l },
                    ..u
                },
                seq![EffectView::SortProcesses],
            ),
            Key::Enter => match selected_row(l.selected, rows) {
                Some(r) => (
                    UiView {
                        selected_pid: Some(r.pid),
                        active: ActiveScreen::ProcessDetails,
                        ..u
                    },
                    seq![],
                ),
                None => (u, seq![]),
            },
            Key::Char('W') | Key::Char('w') => match selected_row(l.selected, rows) {
                Some(r) => (
                    u,
                    seq![
                        EffectView::AddToWorkspace {
                            item_type: WorkspaceItemType::Process,
                            name: r.name@,
                            create_default: ws_empty,
                        },
                    ],
                ),
                None => (u, seq![]),
            },
            _ => match sort_key_column(key) {
                Some(col) => (
                    UiView { processes: ProcessListView { sort_by: col, ..l }, ..u },
                    seq![EffectView::SortProcesses],
                ),
                None => (u, seq![]),
            },
        }
    }
}

fn sort_column_of(key: Key) -> (c: Option<SortColumn>)
    ensures
        c == sort_key_column(key),
{
    match key {
        Key::Char('p') => Some(SortColumn::Pid),
        Key::Char('n') => Some(SortColumn::Name),
        Key::Char('c') => Some(SortColumn::Cpu),
        Key::Char('m') => Some(SortColumn::Memory),
        _ => None,
    }
}

fn process_search_key(state: &mut UiState, lists: &Lists, key: Key) -> (e: Vec<Effect>)
    requires
        old(state).process_list.is_searching,
    ensures
        (final(state)@, effect_views(e@)) == spec_process_key(
            old(state)@,
            lists.processes@,
            lists.workspaces@.len() == 0,
            key,
        ),
{
    let (searching, changed) = edit_search(&mut state.process_list.search_query, key);
    state.process_list.is_searching = searching;
    if changed {
        one(Effect::RefreshProcesses)
    } else {
        none()
    }
}

#[verifier::spinoff_prover]
fn process_plain_key(state: &mut UiState, lists: &Lists, key: Key) -> (e: Vec<Effect>)
    requires
        !old(state).process_list.is_searching,
    ensures
        (final(state)@, effect_views(e@)) == spec_process_key(
            old(state)@,
            lists.processes@,
            lists.workspaces@.len() == 0,
            key,
        ),
{
    let n = lists.processes.len();
    match key {
        Key::Esc | Key::Char('q') | Key::Char('Q') => {
            state.should_quit = true;
            none()
        },
        Key::Char('/') => {
            state.process_list.is_searching = true;
            none()
        },
        Key::Down | Key::Char('j') => {
            state.process_list.next(n);
            none()
        },
        Key::Up | Key::Char('k') => {
            state.process_list.previous(n);
            none()
        },
        Key::Char('T') | Key::Char('t') => {
            let tree = !state.process_list.is_tree_view;
            state.process_list.is_tree_view = tree;
            let msg = if tree {
                "Tree view enabled"
            } else {
                "Tree view disabled"
            };
            two(Effect::RefreshProcesses, note(msg))
        },
        Key::Char('O') | Key::Char('o') => {
            state.active_screen = ActiveScreen::PortList;
            none()
        },
        Key::Char('r') => {
            state.process_list.sort_descending = !state.process_list.sort_descending;
            one(Effect::SortProcesses)
        },
        Key::Enter => match selected_index(state.process_list.selected, n) {
            Some(i) => {
                state.selected_process_pid = Some(lists.processes[i].pid);
                state.active_screen = ActiveScreen::ProcessDetails;
                none()
            },
            None => none(),
        },
        Key::Char('W') | Key::Char('w') => match selected_index(state.process_list.selected, n) {
            Some(i) => one(
                Effect::AddToWorkspace {
                    item_type: WorkspaceItemType::Process,
                    name: copy_str(lists.processes[i].name.as_str()),
                    create_default: lists.workspaces.len() == 0,
                },
            ),
            None => none(),
        },
        _ => match sort_column_of(key) {
            Some(col) => {
                state.process_list.sort_by = col;
                one(Effect::SortProcesses)
            },
            None => none(),
        },
    }
}

/// Handles a key on the process list.
pub fn process_key(state: &mut UiState, lists: &Lists, key: Key) -> (e: Vec<Effect>)
    ensures
        (final(state)@, effect_views(e@)) == spec_process_key(
            old(state)@,
            lists.processes@,
            lists.workspaces@.len() == 0,
            key,
        ),
{
    if state.process_list.is_searching {
        process_search_key(state, lists, key)
    } else {
        process_plain_key(state, lists, key)
    }
}

/// A key on a process's details: back to the list, kill the process (and
/// go back to a refreshed list), or on to the ports.
pub open spec fn spec_details_key(u: UiView, key: Key) -> (UiView, Seq<EffectView>) {
    match key {
        Key::Esc | Key::Char('q') | Key::Char('Q') => (UiView { active: ActiveScreen::ProcessList, ..u }, seq![]),
        Key::Char('K') => match u.selected_pid {
            Some(pid) => (
                UiView { active: ActiveScreen::ProcessList, ..u },
                seq![
                    EffectView::KillProcess(pid),
                    EffectView::Notify(said("Sent Kill to process "@, spec_decimal(pid as nat))),
                    EffectView::RefreshProcesses,
                ],
            ),
            None => (u, seq![]),
        },
        Key::Char('T') | Key::Char('t') => (UiView { active: ActiveScreen::PortList, ..u }, seq![]),
        _ => (u, seq![]),
    }
}

/// Handles a key on a process's details.
pub fn details_key(state: &mut UiState, key: Key) -> (e: Vec<Effect>)
    ensures
        (final(state)@, effect_views(e@)) == spec_details_key(old(state)@, key),
{
    match key {
        Key::Esc | Key::Char('q') | Key::Char('Q') => {
            state.active_screen = ActiveScreen::ProcessList;
            none()
        },
        Key::Char('K') => match state.selected_process_pid {
            Some(pid) => {
                state.active_screen = ActiveScreen::ProcessList;
                let a = Effect::KillProcess(pid);
                let b = notify("Sent Kill to process ", decimal(pid as u64).as_str());
                let c = Effect::RefreshProcesses;
                let ghost (av, bv, cv) = (a@, b@, c@);
                let v = vec![a, b, c];
                assert(effect_views(v@) =~= seq![av, bv, cv]);
                v
            },
            None => none(),
        },
        Key::Char('T') | Key::Char('t') => {
            state.active_screen = ActiveScreen::PortList;
            none()
        },
        _ => none(),
    }
}


// ---------------------------------------------------------------------------
// The port list
// ---------------------------------------------------------------------------

/// Some shown process has this pid.
pub open spec fn is_shown(rows: Seq<ProcessRow>, pid: u32) -> bool {
    exists|i: int| 0 <= i < rows.len() && #[trigger] rows[i].pid == pid
}

fn shown(rows: &Vec<ProcessRow>, pid: u32) -> (b: bool)
    ensures
        b == is_shown(rows@, pid),
{
    let mut i: usize = 0;
    while i < rows.len()
        invariant
            i <= rows@.len(),
            forall|k: int| 0 <= k < i ==> #[trigger] rows@[k].pid != pid,
        decreases rows@.len() - i,
    {
        if rows[i].pid == pid {
            return true;
        }
        i = i + 1;
    }
    false
}

/// What killing a process that holds a port is announced as.
pub open spec fn kill_holder_note(pid: u32, port: u16) -> Seq<char> {
    "Killed process "@ + spec_decimal(pid as nat) + " holding port "@ + spec_decimal(port as nat)
}

/// The kills asked for the holders of a port, each followed by its notice:
/// only holders that are shown processes are killed.
pub open spec fn holder_kills(pids: Seq<u32>, rows: Seq<ProcessRow>, port: u16) -> Seq<EffectView>
    decreases pids.len(),
{
    if pids.len() == 0 {
        seq![]
    } else {
        holder_kills(pids.drop_last(), rows, port) + if is_shown(rows, pids.last()) {
            seq![
                EffectView::KillProcess(pids.last()),
                EffectView::Notify(kill_holder_note(pids.last(), port)),
            ]
        } else {
            seq![]
        }
    }
}

/// A key on the port list.
pub open spec fn spec_port_key(u: UiView, ports: Seq<PortInfo>, rows: Seq<ProcessRow>, key: Key) -> (
    UiView,
    Seq<EffectView>,
) {
    let l = u.ports;
    if l.searching {
        let (q, s, changed) = search_key(l.query, key);
        (
            UiView { ports: ListView { query: q, searching: s, ..l }, ..u },
            refresh_if(changed, EffectView::RefreshPorts),
        )
    } else {
        match key {
            Key::Esc | Key::Char('q') | Key::Char('Q') => (UiView { active: ActiveScreen::ProcessList, ..u }, seq![]),
            Key::Char('/') => (UiView { ports: ListView { searching: true, ..l }, ..u }, seq![]),
            Key::Down | Key::Char('j') => (
                UiView { ports: ListView { selected: clamp_next(l.selected, ports.len()), ..l }, ..u },
                seq![],
            ),
            Key::Up | Key::Char('k') => (
                UiView {
                    ports: ListView { selected: clamp_previous(l.selected, ports.len()), ..l },
                    ..u
                },
                seq![],
            ),
            Key::Enter => match selected_row(l.selected, ports) {
                Some(p) => if p.pids@.len() > 0 && is_shown(rows, p.pids@[0]) {
                    (
                        UiView {
                            selected_pid: Some(p.pids@[0]),
                            active: ActiveScreen::ProcessDetails,
                            ..u
                        },
                        seq![],
                    )
                } else {
                    (u, seq![])
                },
                None => (u, seq![]),
            },
            Key::Char('K') => match selected_row(l.selected, ports) {
                Some(p) => (
                    u,
                    holder_kills(p.pids@, rows, p.local_port) + seq![EffectView::RefreshPorts],
                ),
                None => (u, seq![]),
            },
            _ => (u, seq![]),
        }
    }
}

fn kill_holders(p: &PortInfo, rows: &Vec<ProcessRow>) -> (e: Vec<Effect>)
    ensures
        effect_views(e@) == holder_kills(p.pids@, rows@, p.local_port) + seq![EffectView::RefreshPorts],
{
    let mut e: Vec<Effect> = Vec::new();
    let mut i: usize = 0;
    assert(effect_views(e@) =~= holder_kills(p.pids@.take(0), rows@, p.local_port));
    while i < p.pids.len()
        invariant
            i <= p.pids@.len(),
            effect_views(e@) == holder_kills(p.pids@.take(i as int), rows@, p.local_port),
        decreases p.pids@.len() - i,
    {
        let pid = p.pids[i];
        let ghost before = effect_views(e@);
        assert(p.pids@.take(i + 1).drop_last() == p.pids@.take(i as int));
        assert(p.pids@.take(i + 1).last() == pid);
        if shown(rows, pid) {
            let port_text = decimal(p.local_port as u64);
            let text = copy_str("Killed process ").concat(decimal(pid as u64).as_str()).concat(
                " holding port ",
            ).concat(port_text.as_str());
            let a = Effect::KillProcess(pid);
            let b = Effect::Notify(text);
            let ghost (av, bv) = (a@, b@);
            e.push(a);
            e.push(b);
            assert(effect_views(e@) =~= before + seq![av, bv]);
        } else {
            assert(before + seq![] =~= before);
        }
        i = i + 1;
    }
    assert(p.pids@.take(p.pids@.len() as int) == p.pids@);
    let ghost before = effect_views(e@);
    let r = Effect::RefreshPorts;
    e.push(r);
    assert(effect_views(e@) =~= before + seq![EffectView::RefreshPorts]);
    e
}

fn port_nav_key(state: &mut UiState, lists: &Lists, key: Key) -> (e: Vec<Effect>)
    requires
        !old(state).port_list.is_searching,
        is_nav_key(key),
    ensures
        (final(state)@, effect_views(e@)) == spec_port_key(
            old(state)@,
            lists.ports@,
            lists.processes@,
            key,
        ),
{
    match key {
        Key::Esc | Key::Char('q') | Key::Char('Q') => {
            state.active_screen = ActiveScreen::ProcessList;
        },
        Key::Char('/') => {
            state.port_list.is_searching = true;
        },
        Key::Down | Key::Char('j') => {
            state.port_list.next(lists.ports.len());
        },
        _ => {
            state.port_list.previous(lists.ports.len());
        },
    }
    none()
}

fn port_item_key(state: &mut UiState, lists: &Lists, key: Key) -> (e: Vec<Effect>)
    requires
        !old(state).port_list.is_searching,
        !is_nav_key(key),
    ensures
        (final(state)@, effect_views(e@)) == spec_port_key(
            old(state)@,
            lists.ports@,
            lists.processes@,
            key,
        ),
{
    let sel = selected_index(state.port_list.selected, lists.ports.len());
    match sel {
        None => none(),
        Some(i) => {
            let p = &lists.ports[i];
            match key {
                Key::Enter => {
                    if p.pids.len() > 0 && shown(&lists.processes, p.pids[0]) {
                        state.selected_process_pid = Some(p.pids[0]);
                        state.active_screen = ActiveScreen::ProcessDetails;
                    }
                    none()
                },
                Key::Char('K') => kill_holders(p, &lists.processes),
                _ => none(),
            }
        },
    }
}

/// Handles a key on the port list.
pub fn port_key(state: &mut UiState, lists: &Lists, key: Key) -> (e: Vec<Effect>)
    ensures
        (final(state)@, effect_views(e@)) == spec_port_key(
            old(state)@,
            lists.ports@,
            lists.processes@,
            key,
        ),
{
    if state.port_list.is_searching {
        let (searching, changed) = edit_search(&mut state.port_list.search_query, key);
        state.port_list.is_searching = searching;
        if changed {
            one(Effect::RefreshPorts)
        } else {
            none()
        }
    } else if nav_key(key) {
        port_nav_key(state, lists, key)
    } else {
        port_item_key(state, lists, key)
    }
}


// ---------------------------------------------------------------------------
// The workspace list
// ---------------------------------------------------------------------------

/// What Start (`start`) or Kill/Stop asks of one workspace item: a service
/// or container is started or stopped; a process is not started, and on
/// Kill every process of its name is killed.
pub open spec fn item_effects(item: WorkspaceItem, start: bool) -> Seq<EffectView> {
    match item.item_type {
        WorkspaceItemType::Process => if start {
            seq![]
        } else {
            seq![EffectView::KillProcessesNamed(item.item_name@)]
        },
        WorkspaceItemType::Service => seq![
            EffectView::Service(
                if start {
                    ServiceAction::Start
                } else {
                    ServiceAction::Stop
                },
                item.item_name@,
            ),
        ],
        WorkspaceItemType::Container => seq![
            EffectView::Container(
                if start {
                    ContainerAction::Start
                } else {
                    ContainerAction::Stop
                },
                item.item_name@,
            ),
        ],
    }
}

/// What Start or Kill/Stop asks of the items of a workspace, in order.
pub open spec fn items_effects(items: Seq<WorkspaceItem>, start: bool) -> Seq<EffectView>
    decreases items.len(),
{
    if items.len() == 0 {
        seq![]
    } else {
        items_effects(items.drop_last(), start) + item_effects(items.last(), start)
    }
}

/// The notice after Start or Kill/Stop on a workspace of `n` items.
pub open spec fn workspace_action_note(start: bool, n: nat) -> Seq<char> {
    (if start {
        "Sent Start to "@
    } else {
        "Sent Kill/Stop to "@
    }) + spec_decimal(n) + " items"@
}

/// The keys that move about the workspace list or open a box.
pub open spec fn is_workspace_nav_key(key: Key) -> bool {
    is_nav_key(key) || key == Key::Char('N') || key == Key::Char('n') || key == Key::Tab
}

/// Moving about the workspace list (down when `down`): through the selected
/// workspace's items when they have the focus, else through the workspaces
/// (wrapping, and forgetting the selected item).
pub open spec fn workspace_moved(u: UiView, ws: Seq<WorkspaceInfo>, down: bool) -> UiView {
    let l = u.workspaces;
    if l.focus_items {
        match selected_row(l.selected, ws) {
            Some(w) => UiView {
                workspaces: WorkspaceListView {
                    item_selected: if down {
                        clamp_next(l.item_selected, w.items@.len())
                    } else {
                        clamp_previous(l.item_selected, w.items@.len())
                    },
                    ..l
                },
                ..u
            },
            None => u,
        }
    } else {
        UiView {
            workspaces: WorkspaceListView {
                selected: if ws.len() == 0 {
                    None
                } else if down {
                    wrap_next(l.selected, ws.len())
                } else {
                    wrap_previous(l.selected, ws.len())
                },
                item_selected: None,
                ..l
            },
            ..u
        }
    }
}

/// A key on the workspace list.
pub open spec fn spec_workspace_key(u: UiView, ws: Seq<WorkspaceInfo>, key: Key) -> (
    UiView,
    Seq<EffectView>,
) {
    let l = u.workspaces;
    if l.searching {
        let (q, s, changed) = search_key(l.query, key);
        (
            UiView { workspaces: WorkspaceListView { query: q, searching: s, ..l }, ..u },
            refresh_if(changed, EffectView::RefreshWorkspaces),
        )
    } else {
        match key {
            Key::Esc | Key::Char('q') | Key::Char('Q') => (UiView { active: ActiveScreen::ProcessList, ..u }, seq![]),
            Key::Char('/') => (
                UiView { workspaces: WorkspaceListView { searching: true, ..l }, ..u },
                seq![],
            ),
            Key::Char('N') | Key::Char('n') => (UiView { prompting: true, ..u }, seq![]),
            Key::Tab => (
                UiView { workspaces: WorkspaceListView { focus_items: !l.focus_items, ..l }, ..u },
                seq![],
            ),
            Key::Down | Key::Char('j') => (workspace_moved(u, ws, true), seq![]),
            Key::Up | Key::Char('k') => (workspace_moved(u, ws, false), seq![]),
            Key::Char('S') | Key::Char('K') => match selected_row(l.selected, ws) {
                Some(w) => {
                    let start = key == Key::Char('S');
                    (
                        u,
                        items_effects(w.items@, start) + seq![
                            EffectView::Notify(workspace_action_note(start, w.items@.len())),
                        ],
                    )
                },
                None => (u, seq![]),
            },
            Key::Char('D') => match selected_row(l.selected, ws) {
                Some(w) => if l.focus_items {
                    match selected_row(l.item_selected, w.items@) {
                        Some(it) => (
                            UiView {
                                workspaces: WorkspaceListView { item_selected: None, ..l },
                                ..u
                            },
                            seq![
                                EffectView::RemoveWorkspaceItem(it.id as int),
                                EffectView::Notify(
                                    "Removed "@ + it.item_name@ + " from workspace"@,
                                ),
                            ],
                        ),
                        None => (u, seq![]),
                    }
                } else {
                    (
                        u,
                        seq![
                            EffectView::DeleteWorkspace(w.id as int),
                            EffectView::Notify("Deleted workspace '"@ + w.name@ + "'"@),
                        ],
                    )
                },
                None => (u, seq![]),
            },
            _ => (u, seq![]),
        }
    }
}

fn item_effects_of(item: &WorkspaceItem, start: bool) -> (e: Vec<Effect>)
    ensures
        effect_views(e@) == item_effects(*item, start),
{
    let name = item.item_name.as_str();
    match item.item_type {
        WorkspaceItemType::Process => if start {
            none()
        } else {
            one(Effect::KillProcessesNamed(copy_str(name)))
        },
        WorkspaceItemType::Service => one(
            Effect::Service(
                if start {
                    ServiceAction::Start
                } else {
                    ServiceAction::Stop
                },
                copy_str(name),
            ),
        ),
        WorkspaceItemType::Container => one(
            Effect::Container(
                if start {
                    ContainerAction::Start
                } else {
                    ContainerAction::Stop
                },
                copy_str(name),
            ),
        ),
    }
}

fn workspace_action(w: &WorkspaceInfo, start: bool) -> (e: Vec<Effect>)
    ensures
        effect_views(e@) == items_effects(w.items@, start) + seq![
            EffectView::Notify(workspace_action_note(start, w.items@.len())),
        ],
{
    let mut e: Vec<Effect> = Vec::new();
    let mut i: usize = 0;
    assert(effect_views(e@) =~= items_effects(w.items@.take(0), start));
    while i < w.items.len()
        invariant
            i <= w.items@.len(),
            effect_views(e@) == items_effects(w.items@.take(i as int), start),
        decreases w.items@.len() - i,
    {
        let ghost before = effect_views(e@);
        assert(w.items@.take(i + 1).drop_last() == w.items@.take(i as int));
        assert(w.items@.take(i + 1).last() == w.items@[i as int]);
        let mut more = item_effects_of(&w.items[i], start);
        let ghost added = effect_views(more@);
        e.append(&mut more);
        assert(effect_views(e@) =~= before + added);
        i = i + 1;
    }
    assert(w.items@.take(w.items@.len() as int) == w.items@);
    let count = decimal(w.items.len() as u64);
    let text = copy_str(
        if start {
            "Sent Start to "
        } else {
            "Sent Kill/Stop to "
        },
    ).concat(count.as_str()).concat(" items");
    let ghost before = effect_views(e@);
    let n = Effect::Notify(text);
    let ghost nv = n@;
    e.push(n);
    assert(effect_views(e@) =~= before + seq![nv]);
    e
}

fn workspace_nav_key(state: &mut UiState, lists: &Lists, key: Key) -> (e: Vec<Effect>)
    requires
        !old(state).workspace_list.is_searching,
        is_workspace_nav_key(key),
    ensures
        (final(state)@, effect_views(e@)) == spec_workspace_key(old(state)@, lists.workspaces@, key),
{
    match key {
        Key::Esc | Key::Char('q') | Key::Char('Q') => {
            state.active_screen = ActiveScreen::ProcessList;
        },
        Key::Char('/') => {
            state.workspace_list.is_searching = true;
        },
        Key::Char('N') | Key::Char('n') => {
            state.is_prompting_workspace = true;
        },
        Key::Tab => {
            state.workspace_list.focus_items = !state.workspace_list.focus_items;
        },
        Key::Down | Key::Char('j') => workspace_move(state, lists, true),
        _ => workspace_move(state, lists, false),
    }
    none()
}

fn workspace_item_key(state: &mut UiState, lists: &Lists, key: Key) -> (e: Vec<Effect>)
    requires
        !old(state).workspace_list.is_searching,
        !is_workspace_nav_key(key),
    ensures
        (final(state)@, effect_views(e@)) == spec_workspace_key(old(state)@, lists.workspaces@, key),
{
    let sel = selected_index(state.workspace_list.selected, lists.workspaces.len());
    match sel {
        None => none(),
        Some(i) => {
            let w = &lists.workspaces[i];
            match key {
                Key::Char('S') => workspace_action(w, true),
                Key::Char('K') => workspace_action(w, false),
                Key::Char('D') => if state.workspace_list.focus_items {
                    match selected_index(state.workspace_list.item_selected, w.items.len()) {
                        Some(j) => {
                            let it = &w.items[j];
                            state.workspace_list.item_selected = None;
                            let text = copy_str("Removed ").concat(it.item_name.as_str()).concat(
                                " from workspace",
                            );
                            two(Effect::RemoveWorkspaceItem(it.id), Effect::Notify(text))
                        },
                        None => none(),
                    }
                } else {
                    let text = copy_str("Deleted workspace '").concat(w.name.as_str()).concat("'");
                    two(Effect::DeleteWorkspace(w.id), Effect::Notify(text))
                },
                _ => none(),
            }
        },
    }
}

/// Handles a key on the workspace list.
pub fn workspace_key(state: &mut UiState, lists: &Lists, key: Key) -> (e: Vec<Effect>)
    ensures
        (final(state)@, effect_views(e@)) == spec_workspace_key(old(state)@, lists.workspaces@, key),
{
    if state.workspace_list.is_searching {
        let (searching, changed) = edit_search(&mut state.workspace_list.search_query, key);
        state.workspace_list.is_searching = searching;
        if changed {
            one(Effect::RefreshWorkspaces)
        } else {
            none()
        }
    } else if nav_key(key) || key == Key::Char('N') || key == Key::Char('n') || key == Key::Tab {
        workspace_nav_key(state, lists, key)
    } else {
        workspace_item_key(state, lists, key)
    }
}


// ---------------------------------------------------------------------------
// The log screen
// ---------------------------------------------------------------------------

/// A key on the log screen.
pub open spec fn spec_log_key(u: UiView, key: Key) -> (UiView, Seq<EffectView>) {
    let l = u.log;
    if l.searching {
        let (q, s, _changed) = search_key(l.query, key);
        (UiView { log: LogStateView { query: q, searching: s, ..l }, ..u }, seq![])
    } else {
        match key {
            Key::Char('/') => (UiView { log: LogStateView { searching: true, ..l }, ..u }, seq![]),
            Key::Esc | Key::Char('q') | Key::Char('Q') | Key::Backspace => (UiView { active: u.previous, ..u }, seq![]),
            Key::Up | Key::Char('k') => (UiView { log: scrolled_up(l), ..u }, seq![]),
            Key::Down | Key::Char('j') => (
                UiView { log: scrolled_down(l, line_count(l.logs.len())), ..u },
                seq![],
            ),
            Key::Char('L') | Key::Char('l') | Key::Char('r') => (
                u,
                match l.container_id {
                    Some(id) => seq![EffectView::ReloadContainerLogs(id)],
                    None => match l.service_name {
                        Some(n) => seq![EffectView::ReloadServiceLogs(n)],
                        None => seq![],
                    },
                },
            ),
            Key::Char('F') | Key::Char('f') => (
                UiView { log: LogStateView { auto_scroll: !l.auto_scroll, ..l }, ..u },
                seq![
                    EffectView::Notify(
                        if !l.auto_scroll {
                            "Auto-scroll: ON"@
                        } else {
                            "Auto-scroll: OFF"@
                        },
                    ),
                ],
            ),
            Key::Char('C') | Key::Char('c') => (
                UiView { log: LogStateView { logs: seq![], ..l }, ..u },
                seq![EffectView::Notify("Log buffer cleared"@)],
            ),
            Key::Char('E') | Key::Char('e') => (u, seq![EffectView::ExportLogs]),
            _ => (u, seq![]),
        }
    }
}

fn log_move_key(state: &mut UiState, key: Key) -> (e: Vec<Effect>)
    requires
        !old(state).log_view.is_searching,
        key == Key::Up || key == Key::Char('k') || key == Key::Down || key == Key::Char('j'),
    ensures
        (final(state)@, effect_views(e@)) == spec_log_key(old(state)@, key),
{
    match key {
        Key::Up | Key::Char('k') => state.log_view.scroll_up(),
        _ => {
            let max: u16 = (state.log_view.logs.len() % 0x10000) as u16;
            state.log_view.scroll_down(max);
        },
    }
    none()
}

fn log_other_key(state: &mut UiState, key: Key) -> (e: Vec<Effect>)
    requires
        !old(state).log_view.is_searching,
        !(key == Key::Up || key == Key::Char('k') || key == Key::Down || key == Key::Char('j')),
    ensures
        (final(state)@, effect_views(e@)) == spec_log_key(old(state)@, key),
{
    match key {
        Key::Char('/') => {
            state.log_view.is_searching = true;
            none()
        },
        Key::Esc | Key::Char('q') | Key::Char('Q') | Key::Backspace => {
            state.active_screen = state.previous_screen;
            none()
        },
        Key::Char('L') | Key::Char('l') | Key::Char('r') => match &state.log_view.container_id {
            Some(id) => one(Effect::ReloadContainerLogs(copy_str(id.as_str()))),
            None => match &state.log_view.service_name {
                Some(n) => one(Effect::ReloadServiceLogs(copy_str(n.as_str()))),
                None => none(),
            },
        },
        Key::Char('F') | Key::Char('f') => {
            let on = !state.log_view.auto_scroll;
            state.log_view.auto_scroll = on;
            one(
                note(
                    if on {
                        "Auto-scroll: ON"
                    } else {
                        "Auto-scroll: OFF"
                    },
                ),
            )
        },
        Key::Char('C') | Key::Char('c') => {
            state.log_view.logs = Vec::new();
            assert(state.log_view@.logs =~= Seq::<Seq<char>>::empty());
            one(note("Log buffer cleared"))
        },
        Key::Char('E') | Key::Char('e') => one(Effect::ExportLogs),
        _ => none(),
    }
}

/// Handles a key on the log screen.
pub fn log_key(state: &mut UiState, key: Key) -> (e: Vec<Effect>)
    ensures
        (final(state)@, effect_views(e@)) == spec_log_key(old(state)@, key),
{
    if state.log_view.is_searching {
        let (searching, _changed) = edit_search(&mut state.log_view.search_query, key);
        state.log_view.is_searching = searching;
        none()
    } else if key == Key::Up || key == Key::Char('k') || key == Key::Down || key == Key::Char('j') {
        log_move_key(state, key)
    } else {
        log_other_key(state, key)
    }
}

/// The line shown when logs could not be fetched.
pub open spec fn fetch_failed_line() -> Seq<char> {
    "Could not fetch logs or not supported."@
}

/// Puts freshly fetched logs on the log screen; when the fetch failed, a
/// line saying so is shown if `fallback` is set, else nothing changes.
pub fn load_logs(state: &mut UiState, fetched: Option<Vec<String>>, fallback: bool)
    ensures
        final(state)@ == match fetched {
            Some(v) => UiView { log: LogStateView { logs: views(v@), ..old(state)@.log }, ..old(state)@ },
            None => if fallback {
                UiView {
                    log: LogStateView { logs: seq![fetch_failed_line()], ..old(state)@.log },
                    ..old(state)@
                }
            } else {
                old(state)@
            },
        },
{
    match fetched {
        Some(v) => state.log_view.set_logs(v),
        None => if fallback {
            let v = vec![copy_str("Could not fetch logs or not supported.")];
            assert(views(v@) =~= seq![fetch_failed_line()]);
            state.log_view.set_logs(v);
        },
    }
}

/// Puts reloaded logs on the log screen and says so; a failed reload
/// changes nothing.
pub fn reload_logs(state: &mut UiState, fetched: Option<Vec<String>>, container: bool) -> (e: Vec<Effect>)
    ensures
        match fetched {
            Some(v) => {
                &&& final(state)@ == (UiView {
                    log: LogStateView { logs: views(v@), ..old(state)@.log },
                    ..old(state)@
                })
                &&& effect_views(e@) == seq![
                    EffectView::Notify(
                        if container {
                            "Refreshed container logs"@
                        } else {
                            "Refreshed service logs"@
                        },
                    ),
                ]
            },
            None => final(state)@ == old(state)@ && effect_views(e@) == Seq::<EffectView>::empty(),
        },
{
    match fetched {
        Some(v) => {
            state.log_view.set_logs(v);
            one(
                note(
                    if container {
                        "Refreshed container logs"
                    } else {
                        "Refreshed service logs"
                    },
                ),
            )
        },
        None => none(),
    }
}

/// The file the logs are exported to: the title with spaces made
/// underscores, and `.log`.
pub open spec fn spec_export_file_name(title: Seq<char>) -> Seq<char> {
    spec_replace_char(title, ' ', '_') + ".log"@
}

/// The name of the file the log screen is exported to.
pub fn export_file_name(log: &LogViewState) -> (name: String)
    ensures
        name@ == spec_export_file_name(log.title@),
{
    replace_char(log.title.as_str(), ' ', '_').concat(".log")
}

/// The exported text: the lines joined by newlines.
pub fn export_content(log: &LogViewState) -> (text: String)
    ensures
        text@ == spec_join(views(log.logs@), "\n"@),
{
    let t = join_from(&log.logs, 0, "\n");
    assert(views(log.logs@).subrange(0, log.logs@.len() as int) =~= views(log.logs@));
    t
}

/// How writing the exported logs ended.
pub enum ExportOutcome {
    /// Written to the file at this path.
    Written(String),
    /// The file was created but could not be written.
    WriteFailed,
    /// The file could not be created.
    CreateFailed,
}

/// What an export is announced as.
pub open spec fn spec_export_note(o: ExportOutcome) -> Seq<char> {
    match o {
        ExportOutcome::Written(path) => "Exported logs to "@ + path@,
        ExportOutcome::WriteFailed => "Failed to write log file"@,
        ExportOutcome::CreateFailed => "Failed to create log file"@,
    }
}

/// The notice after an export.
pub fn export_note(o: &ExportOutcome) -> (e: Effect)
    ensures
        e@ == EffectView::Notify(spec_export_note(*o)),
{
    match o {
        ExportOutcome::Written(path) => notify("Exported logs to ", path.as_str()),
        ExportOutcome::WriteFailed => note("Failed to write log file"),
        ExportOutcome::CreateFailed => note("Failed to create log file"),
    }
}


// ---------------------------------------------------------------------------
// The server list
// ---------------------------------------------------------------------------

/// Moving through the server list (down when `down`), wrapping; an empty
/// list keeps its selection.
pub open spec fn server_moved(u: UiView, count: nat, down: bool) -> UiView {
    UiView {
        server_selected: if count == 0 {
            u.server_selected
        } else if down {
            wrap_next(u.server_selected, count)
        } else {
            wrap_previous(u.server_selected, count)
        },
        ..u
    }
}

/// A key on the server list, of `count` servers; Esc, `q` or `Q` go back to
/// the processes.
pub open spec fn spec_server_key(u: UiView, count: nat, key: Key) -> (UiView, Seq<EffectView>) {
    match key {
        Key::Down | Key::Char('j') => (server_moved(u, count, true), seq![]),
        Key::Up | Key::Char('k') => (server_moved(u, count, false), seq![]),
        Key::Esc | Key::Char('q') | Key::Char('Q') => (
            UiView { active: ActiveScreen::ProcessList, ..u },
            seq![],
        ),
        Key::Enter => match u.server_selected {
            Some(i) => if i < count {
                (u, seq![EffectView::ConnectServer(i as nat)])
            } else {
                (u, seq![])
            },
            None => (u, seq![]),
        },
        _ => (u, seq![]),
    }
}

fn server_move_key(state: &mut UiState, lists: &Lists, down: bool)
    ensures
        final(state)@ == server_moved(old(state)@, lists.server_count as nat, down),
{
    if down {
        state.server_list.next(lists.server_count);
    } else {
        state.server_list.previous(lists.server_count);
    }
}

fn server_other_key(state: &mut UiState, lists: &Lists, key: Key) -> (e: Vec<Effect>)
    requires
        !(key == Key::Down || key == Key::Char('j') || key == Key::Up || key == Key::Char('k')),
    ensures
        (final(state)@, effect_views(e@)) == spec_server_key(
            old(state)@,
            lists.server_count as nat,
            key,
        ),
{
    match key {
        Key::Esc | Key::Char('q') | Key::Char('Q') => {
            state.active_screen = ActiveScreen::ProcessList;
            none()
        },
        Key::Enter => match state.server_list.selected {
            Some(i) => if i < lists.server_count {
                one(Effect::ConnectServer(i))
            } else {
                none()
            },
            None => none(),
        },
        _ => none(),
    }
}

/// Handles a key on the server list.
pub fn server_key(state: &mut UiState, lists: &Lists, key: Key) -> (e: Vec<Effect>)
    ensures
        (final(state)@, effect_views(e@)) == spec_server_key(
            old(state)@,
            lists.server_count as nat,
            key,
        ),
{
    if key == Key::Down || key == Key::Char('j') {
        server_move_key(state, lists, true);
        none()
    } else if key == Key::Up || key == Key::Char('k') {
        server_move_key(state, lists, false);
        none()
    } else {
        server_other_key(state, lists, key)
    }
}

/// What a finished connection attempt is announced as.
pub open spec fn connect_note(name: Seq<char>, outcome: Result<(), String>) -> Seq<char> {
    match outcome {
        Ok(_) => "Connected to "@ + name,
        Err(e) => "SSH Error: "@ + e@,
    }
}

/// Records how connecting to a server (configured under `name`) ended: a
/// connected server shows the process list, a failed one is marked as in
/// error. Returns the notice to show.
pub fn finish_connect(
    state: &mut UiState,
    server: &mut ServerInfo,
    name: &str,
    outcome: Result<(), String>,
) -> (msg: String)
    ensures
        msg@ == connect_note(name@, outcome),
        final(server).name == old(server).name,
        final(server).address == old(server).address,
        final(server).status@ == match outcome {
            Ok(_) => "Connected"@,
            Err(_) => "Error"@,
        },
        final(state)@ == match outcome {
            Ok(_) => UiView { active: ActiveScreen::ProcessList, ..old(state)@ },
            Err(_) => old(state)@,
        },
{
    match outcome {
        Ok(_) => {
            server.status = copy_str("Connected");
            state.active_screen = ActiveScreen::ProcessList;
            say("Connected to ", name)
        },
        Err(e) => {
            server.status = copy_str("Error");
            say("SSH Error: ", e.as_str())
        },
    }
}

// ---------------------------------------------------------------------------
// The command palette
// ---------------------------------------------------------------------------

/// The first name that contains the (lower-case) query once lower-cased.
pub open spec fn first_hit(names: Seq<Seq<char>>, q: Seq<char>) -> Option<int>
    decreases names.len(),
{
    if names.len() == 0 {
        None
    } else {
        match first_hit(names.drop_last(), q) {
            Some(i) => Some(i),
            None => if hit(names.last(), q) {
                Some(names.len() - 1)
            } else {
                None
            },
        }
    }
}

proof fn lemma_first_hit_prefix(names: Seq<Seq<char>>, q: Seq<char>, k: int)
    requires
        0 <= k <= names.len(),
        first_hit(names.take(k), q) is Some,
    ensures
        first_hit(names, q) == first_hit(names.take(k), q),
    decreases names.len() - k,
{
    if k < names.len() {
        assert(names.take(k + 1).drop_last() == names.take(k));
        lemma_first_hit_prefix(names, q, k + 1);
    } else {
        assert(names.take(k) == names);
    }
}

/// `first_hit` gives the first name that matches, and none only when no
/// name matches.
proof fn lemma_first_hit_is_first(names: Seq<Seq<char>>, q: Seq<char>)
    ensures
        match first_hit(names, q) {
            Some(k) => 0 <= k < names.len() && hit(names[k], q) && forall|j: int|
                0 <= j < k ==> !hit(#[trigger] names[j], q),
            None => forall|j: int| 0 <= j < names.len() ==> !hit(#[trigger] names[j], q),
        },
    decreases names.len(),
{
    if names.len() > 0 {
        let d = names.drop_last();
        lemma_first_hit_is_first(d, q);
        match first_hit(d, q) {
            Some(k) => {
                assert forall|j: int| 0 <= j < k implies !hit(#[trigger] names[j], q) by {
                    assert(d[j] == names[j]);
                }
                assert(d[k] == names[k]);
            },
            None => {
                assert forall|j: int| 0 <= j < names.len() - 1 implies !hit(#[trigger] names[j], q) by {
                    assert(d[j] == names[j]);
                }
            },
        }
    }
}

/// A name that matches with none before it matching is the first hit.
proof fn lemma_first_hit_unique(names: Seq<Seq<char>>, q: Seq<char>, k: int)
    requires
        0 <= k < names.len(),
        hit(names[k], q),
        forall|j: int| 0 <= j < k ==> !hit(#[trigger] names[j], q),
    ensures
        first_hit(names, q) == Some(k),
{
    lemma_first_hit_is_first(names, q);
}

/// The names of the shown processes.
pub open spec fn process_names(rows: Seq<ProcessRow>) -> Seq<Seq<char>> {
    rows.map_values(|r: ProcessRow| r.name@)
}

/// The names of the shown containers.
pub open spec fn container_names(cs: Seq<ContainerInfo>) -> Seq<Seq<char>> {
    cs.map_values(|c: ContainerInfo| c.name@)
}

/// The names of the shown services.
pub open spec fn service_names(ss: Seq<ServiceInfo>) -> Seq<Seq<char>> {
    ss.map_values(|s: ServiceInfo| s.name@)
}

fn first_process(rows: &Vec<ProcessRow>, q: &str) -> (r: Option<usize>)
    ensures
        match r {
            Some(i) => i < rows@.len() && first_hit(process_names(rows@), q@) == Some(i as int),
            None => first_hit(process_names(rows@), q@) is None,
        },
{
    let ghost names = process_names(rows@);
    let mut i: usize = 0;
    while i < rows.len()
        invariant
            i <= rows@.len(),
            names == process_names(rows@),
            first_hit(names.take(i as int), q@) is None,
        decreases rows@.len() - i,
    {
        assert(names.take(i + 1).drop_last() == names.take(i as int));
        assert(names.take(i + 1).last() == rows@[i as int].name@);
        if hits(rows[i].name.as_str(), q) {
            proof {
                lemma_first_hit_prefix(names, q@, i + 1);
            }
            return Some(i);
        }
        i = i + 1;
    }
    assert(names.take(rows@.len() as int) == names);
    None
}

fn first_container(cs: &Vec<ContainerInfo>, q: &str) -> (r: Option<usize>)
    ensures
        match r {
            Some(i) => i < cs@.len() && first_hit(container_names(cs@), q@) == Some(i as int),
            None => first_hit(container_names(cs@), q@) is None,
        },
{
    let ghost names = container_names(cs@);
    let mut i: usize = 0;
    while i < cs.len()
        invariant
            i <= cs@.len(),
            names == container_names(cs@),
            first_hit(names.take(i as int), q@) is None,
        decreases cs@.len() - i,
    {
        assert(names.take(i + 1).drop_last() == names.take(i as int));
        assert(names.take(i + 1).last() == cs@[i as int].name@);
        if hits(cs[i].name.as_str(), q) {
            proof {
                lemma_first_hit_prefix(names, q@, i + 1);
            }
            return Some(i);
        }
        i = i + 1;
    }
    assert(names.take(cs@.len() as int) == names);
    None
}

fn first_service(ss: &Vec<ServiceInfo>, q: &str) -> (r: Option<usize>)
    ensures
        match r {
            Some(i) => i < ss@.len() && first_hit(service_names(ss@), q@) == Some(i as int),
            None => first_hit(service_names(ss@), q@) is None,
        },
{
    let ghost names = service_names(ss@);
    let mut i: usize = 0;
    while i < ss.len()
        invariant
            i <= ss@.len(),
            names == service_names(ss@),
            first_hit(names.take(i as int), q@) is None,
        decreases ss@.len() - i,
    {
        assert(names.take(i + 1).drop_last() == names.take(i as int));
        assert(names.take(i + 1).last() == ss@[i as int].name@);
        if hits(ss[i].name.as_str(), q) {
            proof {
                lemma_first_hit_prefix(names, q@, i + 1);
            }
            return Some(i);
        }
        i = i + 1;
    }
    assert(names.take(ss@.len() as int) == names);
    None
}

/// The command word of a palette line, lower-cased (the line has a word).
pub open spec fn command_word(words: Seq<Seq<char>>) -> Seq<char> {
    spec_lowercase(words[0])
}

/// What the command acts on: the remaining words joined by single spaces,
/// lower-cased; empty when there are none.
pub open spec fn command_target(words: Seq<Seq<char>>) -> Seq<char> {
    if words.len() > 1 {
        spec_lowercase(spec_join(words.subrange(1, words.len() as int), " "@))
    } else {
        seq![]
    }
}

/// `kill <name>`: the first shown process whose name contains the target.
pub open spec fn spec_kill_command(rows: Seq<ProcessRow>, target: Seq<char>) -> Seq<EffectView> {
    match first_hit(process_names(rows), target) {
        Some(i) => seq![
            EffectView::KillProcess(rows[i].pid),
            EffectView::Notify(
                "Killed process "@ + rows[i].name@ + " ("@ + spec_decimal(rows[i].pid as nat) + ")"@,
            ),
        ],
        None => seq![EffectView::Notify("Process '"@ + target + "' not found"@)],
    }
}

/// `restart <name>`: the first matching container, else the first
/// matching service.
pub open spec fn spec_restart_command(
    cs: Seq<ContainerInfo>,
    ss: Seq<ServiceInfo>,
    target: Seq<char>,
) -> Seq<EffectView> {
    match first_hit(container_names(cs), target) {
        Some(i) => seq![
            EffectView::Container(ContainerAction::Restart, cs[i].name@),
            EffectView::Notify("Restarted container "@ + cs[i].name@),
        ],
        None => match first_hit(service_names(ss), target) {
            Some(j) => seq![
                EffectView::Service(ServiceAction::Restart, ss[j].name@),
                EffectView::Notify("Restarted service "@ + ss[j].name@),
            ],
            None => seq![
                EffectView::Notify(
                    "Target '"@ + target + "' not found in containers or services"@,
                ),
            ],
        },
    }
}

/// `logs <name>`: the logs of the first matching container, else of the
/// first matching service, on the log screen (left empty if they cannot be
/// fetched).
pub open spec fn spec_logs_command(
    u: UiView,
    cs: Seq<ContainerInfo>,
    ss: Seq<ServiceInfo>,
    target: Seq<char>,
) -> (UiView, Seq<EffectView>) {
    match first_hit(container_names(cs), target) {
        Some(i) => (
            open_container_logs(u, cs[i].id@, cs[i].name@),
            seq![EffectView::LoadContainerLogs { id: cs[i].id@, fallback: false }],
        ),
        None => match first_hit(service_names(ss), target) {
            Some(j) => (
                open_service_logs(u, ss[j].name@),
                seq![EffectView::LoadServiceLogs { name: ss[j].name@, fallback: false }],
            ),
            None => (u, seq![EffectView::Notify("Logs for '"@ + target + "' not found"@)]),
        },
    }
}

/// Runs a palette line: its first word is the command, the rest its target.
/// `servers` opens the server list.
pub open spec fn spec_run_command(u: UiView, lists: Lists, text: Seq<char>) -> (
    UiView,
    Seq<EffectView>,
) {
    let words = spec_words(text);
    if words.len() == 0 {
        (u, seq![])
    } else {
        let cmd = command_word(words);
        let target = command_target(words);
        if cmd == "kill"@ {
            (u, spec_kill_command(lists.processes@, target))
        } else if cmd == "restart"@ {
            (u, spec_restart_command(lists.containers@, lists.services@, target))
        } else if cmd == "logs"@ {
            spec_logs_command(u, lists.containers@, lists.services@, target)
        } else if cmd == "servers"@ {
            (UiView { active: ActiveScreen::ServerList, ..u }, seq![])
        } else if cmd == "quit"@ || cmd == "q"@ {
            (UiView { quit: true, ..u }, seq![])
        } else {
            (u, seq![EffectView::Notify("Unknown command: "@ + cmd)])
        }
    }
}

fn kill_command(lists: &Lists, target: &str) -> (e: Vec<Effect>)
    ensures
        effect_views(e@) == spec_kill_command(lists.processes@, target@),
{
    match first_process(&lists.processes, target) {
        Some(i) => {
            let r = &lists.processes[i];
            let text = copy_str("Killed process ").concat(r.name.as_str()).concat(" (").concat(
                decimal(r.pid as u64).as_str(),
            ).concat(")");
            two(Effect::KillProcess(r.pid), Effect::Notify(text))
        },
        None => {
            let text = copy_str("Process '").concat(target).concat("' not found");
            one(Effect::Notify(text))
        },
    }
}

fn restart_command(lists: &Lists, target: &str) -> (e: Vec<Effect>)
    ensures
        effect_views(e@) == spec_restart_command(lists.containers@, lists.services@, target@),
{
    match first_container(&lists.containers, target) {
        Some(i) => {
            let name = lists.containers[i].name.as_str();
            two(
                Effect::Container(ContainerAction::Restart, copy_str(name)),
                notify("Restarted container ", name),
            )
        },
        None => match first_service(&lists.services, target) {
            Some(j) => {
                let name = lists.services[j].name.as_str();
                two(
                    Effect::Service(ServiceAction::Restart, copy_str(name)),
                    notify("Restarted service ", name),
                )
            },
            None => {
                let text = copy_str("Target '").concat(target).concat(
                    "' not found in containers or services",
                );
                one(Effect::Notify(text))
            },
        },
    }
}

fn logs_command(state: &mut UiState, lists: &Lists, target: &str) -> (e: Vec<Effect>)
    ensures
        (final(state)@, effect_views(e@)) == spec_logs_command(
            old(state)@,
            lists.containers@,
            lists.services@,
            target@,
        ),
{
    match first_container(&lists.containers, target) {
        Some(i) => {
            let c = &lists.containers[i];
            show_container_logs(state, c.id.as_str(), c.name.as_str());
            one(Effect::LoadContainerLogs { id: copy_str(c.id.as_str()), fallback: false })
        },
        None => match first_service(&lists.services, target) {
            Some(j) => {
                let name = lists.services[j].name.as_str();
                show_service_logs(state, name);
                one(Effect::LoadServiceLogs { name: copy_str(name), fallback: false })
            },
            None => {
                let text = copy_str("Logs for '").concat(target).concat("' not found");
                one(Effect::Notify(text))
            },
        },
    }
}

/// Runs a line typed into the command palette.
pub fn run_command(state: &mut UiState, lists: &Lists, text: &str) -> (e: Vec<Effect>)
    ensures
        (final(state)@, effect_views(e@)) == spec_run_command(old(state)@, *lists, text@),
{
    let words = split_whitespace(text);
    if words.len() == 0 {
        return none();
    }
    let cmd = lowercase(words[0].as_str());
    let target = if words.len() > 1 {
        lowercase(join_from(&words, 1, " ").as_str())
    } else {
        String::new()
    };
    let c = cmd.as_str();
    if str_eq(c, "kill") {
        kill_command(lists, target.as_str())
    } else if str_eq(c, "restart") {
        restart_command(lists, target.as_str())
    } else if str_eq(c, "logs") {
        logs_command(state, lists, target.as_str())
    } else if str_eq(c, "servers") {
        state.active_screen = ActiveScreen::ServerList;
        none()
    } else if str_eq(c, "quit") || str_eq(c, "q") {
        state.should_quit = true;
        none()
    } else {
        one(notify("Unknown command: ", c))
    }
}


// ---------------------------------------------------------------------------
// The two text boxes: the command palette and the new-workspace prompt
// ---------------------------------------------------------------------------

/// Typing into a text box: Backspace removes the last character (none when
/// empty), a character is added; other keys change nothing.
pub open spec fn typed(text: Seq<char>, key: Key) -> Seq<char> {
    match key {
        Key::Backspace => if text.len() > 0 {
            text.drop_last()
        } else {
            text
        },
        Key::Char(c) => text.push(c),
        _ => text,
    }
}

fn type_into(text: &mut String, key: Key)
    ensures
        final(text)@ == typed(old(text)@, key),
{
    match key {
        Key::Backspace => pop_char(text),
        Key::Char(c) => push_char(text, c),
        _ => {},
    }
}

/// A key while the command palette is open: Esc closes it, Enter closes it
/// and runs the line typed.
pub open spec fn spec_palette_key(u: UiView, lists: Lists, key: Key) -> (UiView, Seq<EffectView>) {
    match key {
        Key::Esc => (UiView { palette: false, palette_text: seq![], ..u }, seq![]),
        Key::Enter => spec_run_command(
            UiView { palette: false, palette_text: seq![], ..u },
            lists,
            u.palette_text,
        ),
        _ => (UiView { palette_text: typed(u.palette_text, key), ..u }, seq![]),
    }
}

fn close_palette(state: &mut UiState) -> (text: String)
    ensures
        text@ == old(state)@.palette_text,
        final(state)@ == (UiView { palette: false, palette_text: seq![], ..old(state)@ }),
{
    let mut text = String::new();
    std::mem::swap(&mut text, &mut state.command_prompt_text);
    state.is_command_palette = false;
    text
}

/// Handles a key while the command palette is open.
pub fn palette_key(state: &mut UiState, lists: &Lists, key: Key) -> (e: Vec<Effect>)
    ensures
        (final(state)@, effect_views(e@)) == spec_palette_key(old(state)@, *lists, key),
{
    match key {
        Key::Esc => {
            close_palette(state);
            none()
        },
        Key::Enter => {
            let text = close_palette(state);
            run_command(state, lists, text.as_str())
        },
        _ => {
            type_into(&mut state.command_prompt_text, key);
            none()
        },
    }
}

/// A key while the new-workspace prompt is open: Esc closes it, Enter
/// closes it and creates a workspace of the name typed, if one was.
pub open spec fn spec_prompt_key(u: UiView, key: Key) -> (UiView, Seq<EffectView>) {
    match key {
        Key::Esc => (UiView { prompting: false, prompt_text: seq![], ..u }, seq![]),
        Key::Enter => (
            UiView { prompting: false, prompt_text: seq![], ..u },
            if u.prompt_text.len() > 0 {
                seq![EffectView::CreateWorkspace(u.prompt_text)]
            } else {
                seq![]
            },
        ),
        _ => (UiView { prompt_text: typed(u.prompt_text, key), ..u }, seq![]),
    }
}

fn close_prompt(state: &mut UiState) -> (name: String)
    ensures
        name@ == old(state)@.prompt_text,
        final(state)@ == (UiView { prompting: false, prompt_text: seq![], ..old(state)@ }),
{
    let mut name = String::new();
    std::mem::swap(&mut name, &mut state.workspace_prompt_text);
    state.is_prompting_workspace = false;
    name
}

/// Handles a key while the new-workspace prompt is open.
pub fn prompt_key(state: &mut UiState, key: Key) -> (e: Vec<Effect>)
    ensures
        (final(state)@, effect_views(e@)) == spec_prompt_key(old(state)@, key),
{
    match key {
        Key::Esc => {
            close_prompt(state);
            none()
        },
        Key::Enter => {
            let name = close_prompt(state);
            if name.as_str().unicode_len() > 0 {
                one(Effect::CreateWorkspace(name))
            } else {
                none()
            }
        },
        _ => {
            type_into(&mut state.workspace_prompt_text, key);
            none()
        },
    }
}

// ---------------------------------------------------------------------------
// Dispatch
// ---------------------------------------------------------------------------

/// No list's search box is open (the log screen's does not count).
pub open spec fn no_list_searching(u: UiView) -> bool {
    !u.processes.searching && !u.ports.searching && !u.services.searching && !u.docker.searching
        && !u.workspaces.searching
}

/// A key, wherever it lands: an open box takes it first; then, unless a
/// list is being searched, `V` cycles the screens and `:` opens the
/// palette; otherwise the screen shown handles it.
pub open spec fn spec_handle_key(u: UiView, lists: Lists, key: Key) -> (UiView, Seq<EffectView>) {
    if u.palette {
        spec_palette_key(u, lists, key)
    } else if u.prompting {
        spec_prompt_key(u, key)
    } else if no_list_searching(u) && (key == Key::Char('V') || key == Key::Char('v')) {
        (UiView { active: cycled(u.active, u.previous), ..u }, seq![])
    } else if no_list_searching(u) && key == Key::Char(':') {
        (UiView { palette: true, palette_text: seq![], ..u }, seq![])
    } else {
        let ws_empty = lists.workspaces@.len() == 0;
        match u.active {
            ActiveScreen::ProcessList => spec_process_key(u, lists.processes@, ws_empty, key),
            ActiveScreen::ProcessDetails => spec_details_key(u, key),
            ActiveScreen::PortList => spec_port_key(u, lists.ports@, lists.processes@, key),
            ActiveScreen::ServiceList => spec_service_key(u, lists.services@, ws_empty, key),
            ActiveScreen::DockerList => spec_docker_key(u, lists.containers@, ws_empty, key),
            ActiveScreen::WorkspaceList => spec_workspace_key(u, lists.workspaces@, key),
            ActiveScreen::LogView => spec_log_key(u, key),
            ActiveScreen::ServerList => spec_server_key(u, lists.server_count as nat, key),
        }
    }
}

fn screen_key(state: &mut UiState, lists: &Lists, key: Key) -> (e: Vec<Effect>)
    ensures
        (final(state)@, effect_views(e@)) == ({
            let u = old(state)@;
            let ws_empty = lists.workspaces@.len() == 0;
            match u.active {
                ActiveScreen::ProcessList => spec_process_key(u, lists.processes@, ws_empty, key),
                ActiveScreen::ProcessDetails => spec_details_key(u, key),
                ActiveScreen::PortList => spec_port_key(u, lists.ports@, lists.processes@, key),
                ActiveScreen::ServiceList => spec_service_key(u, lists.services@, ws_empty, key),
                ActiveScreen::DockerList => spec_docker_key(u, lists.containers@, ws_empty, key),
                ActiveScreen::WorkspaceList => spec_workspace_key(u, lists.workspaces@, key),
                ActiveScreen::LogView => spec_log_key(u, key),
                ActiveScreen::ServerList => spec_server_key(u, lists.server_count as nat, key),
            }
        }),
{
    match state.active_screen {
        ActiveScreen::ProcessList => process_key(state, lists, key),
        ActiveScreen::ProcessDetails => details_key(state, key),
        ActiveScreen::PortList => port_key(state, lists, key),
        ActiveScreen::ServiceList => service_key(state, lists, key),
        ActiveScreen::DockerList => docker_key(state, lists, key),
        ActiveScreen::WorkspaceList => workspace_key(state, lists, key),
        ActiveScreen::LogView => log_key(state, key),
        ActiveScreen::ServerList => server_key(state, lists, key),
    }
}

fn cycle_screen(cur: ActiveScreen, prev: ActiveScreen) -> (s: ActiveScreen)
    ensures
        s == cycled(cur, prev),
{
    match cur {
        ActiveScreen::ProcessList => ActiveScreen::ServiceList,
        ActiveScreen::ProcessDetails => ActiveScreen::ServiceList,
        ActiveScreen::ServiceList => ActiveScreen::DockerList,
        ActiveScreen::DockerList => ActiveScreen::WorkspaceList,
        ActiveScreen::WorkspaceList => ActiveScreen::PortList,
        ActiveScreen::PortList => ActiveScreen::ProcessList,
        ActiveScreen::ServerList => ActiveScreen::ProcessList,
        ActiveScreen::LogView => prev,
    }
}

/// Handles a key.
pub fn handle_key(state: &mut UiState, lists: &Lists, key: Key) -> (e: Vec<Effect>)
    ensures
        (final(state)@, effect_views(e@)) == spec_handle_key(old(state)@, *lists, key),
{
    if state.is_command_palette {
        palette_key(state, lists, key)
    } else if state.is_prompting_workspace {
        prompt_key(state, key)
    } else {
        let free = !state.process_list.is_searching && !state.port_list.is_searching
            && !state.service_list.is_searching && !state.docker_list.is_searching
            && !state.workspace_list.is_searching;
        if free && (key == Key::Char('V') || key == Key::Char('v')) {
            state.active_screen = cycle_screen(state.active_screen, state.previous_screen);
            none()
        } else if free && key == Key::Char(':') {
            state.is_command_palette = true;
            state.command_prompt_text = String::new();
            none()
        } else {
            screen_key(state, lists, key)
        }
    }
}

/// The mouse wheel (down when `down`) moves the selection of the list shown,
/// or scrolls the logs, as the arrow keys would, open search boxes or not.
pub open spec fn spec_scroll(u: UiView, lists: Lists, down: bool) -> UiView {
    match u.active {
        ActiveScreen::ProcessList => {
            let l = u.processes;
            let n = lists.processes@.len();
            UiView {
                processes: ProcessListView {
                    selected: if down {
                        clamp_next(l.selected, n)
                    } else {
                        clamp_previous(l.selected, n)
                    },
                    ..l
                },
                ..u
            }
        },
        ActiveScreen::ServiceList => {
            let l = u.services;
            let n = lists.services@.len();
            UiView {
                services: ListView {
                    selected: if down {
                        clamp_next(l.selected, n)
                    } else {
                        clamp_previous(l.selected, n)
                    },
                    ..l
                },
                ..u
            }
        },
        ActiveScreen::DockerList => {
            let l = u.docker;
            let n = lists.containers@.len();
            UiView {
                docker: ListView {
                    selected: if down {
                        clamp_next(l.selected, n)
                    } else {
                        clamp_previous(l.selected, n)
                    },
                    ..l
                },
                ..u
            }
        },
        ActiveScreen::PortList => {
            let l = u.ports;
            let n = lists.ports@.len();
            UiView {
                ports: ListView {
                    selected: if down {
                        clamp_next(l.selected, n)
                    } else {
                        clamp_previous(l.selected, n)
                    },
                    ..l
                },
                ..u
            }
        },
        ActiveScreen::WorkspaceList => workspace_moved(u, lists.workspaces@, down),
        ActiveScreen::LogView => UiView {
            log: if down {
                scrolled_down(u.log, line_count(u.log.logs.len()))
            } else {
                scrolled_up(u.log)
            },
            ..u
        },
        ActiveScreen::ServerList => server_moved(u, lists.server_count as nat, down),
        ActiveScreen::ProcessDetails => u,
    }
}

fn workspace_move(state: &mut UiState, lists: &Lists, down: bool)
    ensures
        final(state)@ == workspace_moved(old(state)@, lists.workspaces@, down),
{
    let n = lists.workspaces.len();
    if state.workspace_list.focus_items {
        match selected_index(state.workspace_list.selected, n) {
            Some(i) => if down {
                state.workspace_list.item_next(lists.workspaces[i].items.len())
            } else {
                state.workspace_list.item_previous(lists.workspaces[i].items.len())
            },
            None => {},
        }
    } else if down {
        state.workspace_list.next(n);
    } else {
        state.workspace_list.previous(n);
    }
}

fn scroll_process_list(state: &mut UiState, lists: &Lists, down: bool)
    requires
        old(state).active_screen == ActiveScreen::ProcessList,
    ensures
        final(state)@ == spec_scroll(old(state)@, *lists, down),
{
    if down {
        state.process_list.next(lists.processes.len());
    } else {
        state.process_list.previous(lists.processes.len());
    }
}

fn scroll_service_list(state: &mut UiState, lists: &Lists, down: bool)
    requires
        old(state).active_screen == ActiveScreen::ServiceList,
    ensures
        final(state)@ == spec_scroll(old(state)@, *lists, down),
{
    if down {
        state.service_list.next(lists.services.len());
    } else {
        state.service_list.previous(lists.services.len());
    }
}

fn scroll_docker_list(state: &mut UiState, lists: &Lists, down: bool)
    requires
        old(state).active_screen == ActiveScreen::DockerList,
    ensures
        final(state)@ == spec_scroll(old(state)@, *lists, down),
{
    if down {
        state.docker_list.next(lists.containers.len());
    } else {
        state.docker_list.previous(lists.containers.len());
    }
}

fn scroll_port_list(state: &mut UiState, lists: &Lists, down: bool)
    requires
        old(state).active_screen == ActiveScreen::PortList,
    ensures
        final(state)@ == spec_scroll(old(state)@, *lists, down),
{
    if down {
        state.port_list.next(lists.ports.len());
    } else {
        state.port_list.previous(lists.ports.len());
    }
}

fn scroll_server_list(state: &mut UiState, lists: &Lists, down: bool)
    requires
        old(state).active_screen == ActiveScreen::ServerList,
    ensures
        final(state)@ == spec_scroll(old(state)@, *lists, down),
{
    if down {
        state.server_list.next(lists.server_count);
    } else {
        state.server_list.previous(lists.server_count);
    }
}

fn scroll_log(state: &mut UiState, lists: &Lists, down: bool)
    requires
        old(state).active_screen == ActiveScreen::LogView,
    ensures
        final(state)@ == spec_scroll(old(state)@, *lists, down),
{
    if down {
        let max: u16 = (state.log_view.logs.len() % 0x10000) as u16;
        state.log_view.scroll_down(max);
    } else {
        state.log_view.scroll_up();
    }
}

/// Handles a turn of the mouse wheel.
pub fn scroll(state: &mut UiState, lists: &Lists, down: bool)
    ensures
        final(state)@ == spec_scroll(old(state)@, *lists, down),
{
    match state.active_screen {
        ActiveScreen::ProcessList => scroll_process_list(state, lists, down),
        ActiveScreen::ServiceList => scroll_service_list(state, lists, down),
        ActiveScreen::DockerList => scroll_docker_list(state, lists, down),
        ActiveScreen::PortList => scroll_port_list(state, lists, down),
        ActiveScreen::WorkspaceList => workspace_move(state, lists, down),
        ActiveScreen::LogView => scroll_log(state, lists, down),
        ActiveScreen::ServerList => scroll_server_list(state, lists, down),
        ActiveScreen::ProcessDetails => {},
    }
}

/// What a terminal event does to the interface and asks of the host.
pub open spec fn spec_handle_input(u: UiView, lists: Lists, input: Input) -> (
    UiView,
    Seq<EffectView>,
) {
    match input {
        Input::Key(k) => spec_handle_key(u, lists, k),
        Input::ScrollDown => (spec_scroll(u, lists, true), seq![]),
        Input::ScrollUp => (spec_scroll(u, lists, false), seq![]),
        Input::Other => (u, seq![]),
    }
}

/// Handles a terminal event against the lists currently shown; the host
/// carries out the returned effects in order.
pub fn handle_input(state: &mut UiState, lists: &Lists, input: Input) -> (e: Vec<Effect>)
    ensures
        (final(state)@, effect_views(e@)) == spec_handle_input(old(state)@, *lists, input),
{
    match input {
        Input::Key(k) => handle_key(state, lists, k),
        Input::ScrollDown => {
            scroll(state, lists, true);
            none()
        },
        Input::ScrollUp => {
            scroll(state, lists, false);
            none()
        },
        Input::Other => none(),
    }
}


// ---------------------------------------------------------------------------
// Laws
// ---------------------------------------------------------------------------

/// In a search box, typing a character and then Backspace gives back the
/// query, with the box still open and a refresh asked each time.
pub proof fn lemma_search_type_undo(query: Seq<char>, c: char)
    ensures
        ({
            let (q1, open1, changed1) = search_key(query, Key::Char(c));
            let (q2, open2, changed2) = search_key(q1, Key::Backspace);
            q2 == query && open1 && open2 && changed1 && changed2
        }),
{
    let q1 = query.push(c);
    assert(q1.drop_last() =~= query);
}

/// In the palette or the new-workspace prompt, typing a character and then
/// Backspace gives back the text.
pub proof fn lemma_typed_undo(text: Seq<char>, c: char)
    ensures
        typed(typed(text, Key::Char(c)), Key::Backspace) == text,
{
    assert(text.push(c).drop_last() =~= text);
}

/// Leaving the logs (Esc, `q`, `Q` or Backspace) goes back to the screen they
/// were opened from, whichever list opened them.
pub proof fn lemma_logs_return(u: UiView, id: Seq<char>, name: Seq<char>, key: Key)
    requires
        key == Key::Esc || key == Key::Char('q') || key == Key::Char('Q') || key == Key::Backspace,
    ensures
        spec_log_key(open_service_logs(u, name), key).0.active == u.active,
        spec_log_key(open_container_logs(u, id, name), key).0.active == u.active,
        spec_log_key(open_service_logs(u, name), key).1 == Seq::<EffectView>::empty(),
{
}

/// Esc always closes the palette or the prompt, emptied, and asks nothing.
pub proof fn lemma_escape_closes(u: UiView, lists: Lists)
    ensures
        ({
            let (p, pe) = spec_palette_key(u, lists, Key::Esc);
            !p.palette && p.palette_text.len() == 0 && pe.len() == 0
        }),
        ({
            let (w, we) = spec_prompt_key(u, Key::Esc);
            !w.prompting && w.prompt_text.len() == 0 && we.len() == 0
        }),
{
}


/// On the service list, with a service selected and no search open, each
/// action key asks its own action of that service and announces it: `S`
/// stops a running service and starts any other, `K` stops, `R` restarts,
/// `E` enables, `D` disables; `L` opens its logs and `W` adds it to a
/// workspace. Nothing else changes.
pub proof fn lemma_service_list_keys(u: UiView, services: Seq<ServiceInfo>, ws_empty: bool, i: usize)
    requires
        !u.services.searching,
        u.services.selected == Some(i),
        i < services.len(),
    ensures
        ({
            let s = services[i as int];
            let n = s.name@;
            &&& spec_service_key(u, services, ws_empty, Key::Char('S')) == (
                u,
                if s.status == ServiceStatus::Running {
                    seq![
                        EffectView::Service(ServiceAction::Stop, n),
                        EffectView::Notify("Stopping service "@ + n),
                    ]
                } else {
                    seq![
                        EffectView::Service(ServiceAction::Start, n),
                        EffectView::Notify("Starting service "@ + n),
                    ]
                },
            )
            &&& spec_service_key(u, services, ws_empty, Key::Char('K')) == (
                u,
                seq![
                    EffectView::Service(ServiceAction::Stop, n),
                    EffectView::Notify("Stopping service "@ + n),
                ],
            )
            &&& spec_service_key(u, services, ws_empty, Key::Char('R')) == (
                u,
                seq![
                    EffectView::Service(ServiceAction::Restart, n),
                    EffectView::Notify("Restarting service "@ + n),
                ],
            )
            &&& spec_service_key(u, services, ws_empty, Key::Char('E')) == (
                u,
                seq![
                    EffectView::Service(ServiceAction::Enable, n),
                    EffectView::Notify("Enabled service "@ + n),
                ],
            )
            &&& spec_service_key(u, services, ws_empty, Key::Char('D')) == (
                u,
                seq![
                    EffectView::Service(ServiceAction::Disable, n),
                    EffectView::Notify("Disabled service "@ + n),
                ],
            )
            &&& spec_service_key(u, services, ws_empty, Key::Char('W')) == (
                u,
                seq![
                    EffectView::AddToWorkspace {
                        item_type: WorkspaceItemType::Service,
                        name: n,
                        create_default: ws_empty,
                    },
                ],
            )
            &&& spec_service_key(u, services, ws_empty, Key::Char('L')).1 == seq![
                EffectView::LoadServiceLogs { name: n, fallback: true },
            ]
            &&& spec_service_key(u, services, ws_empty, Key::Char('L')).0.active == ActiveScreen::LogView
            &&& spec_service_key(u, services, ws_empty, Key::Char('L')).0.previous == u.active
            &&& spec_service_key(u, services, ws_empty, Key::Char('L')).0.log.service_name == Some(n)
            &&& spec_service_key(u, services, ws_empty, Key::Char('L')).0.log.container_id is None
            &&& spec_service_key(u, services, ws_empty, Key::Char('L')).0.log.title == n
            &&& spec_service_key(u, services, ws_empty, Key::Char('L')).0.log.logs.len() == 0
        }),
{
}

/// On the container list, with a container selected and no search open:
/// `S` stops a running container and starts any other, `K` always stops,
/// `R` restarts, each announced; `E` opens a shell in it, `W` adds it to a
/// workspace, and `L` opens its logs (by id, titled by name).
pub proof fn lemma_container_list_keys(
    u: UiView,
    containers: Seq<ContainerInfo>,
    ws_empty: bool,
    i: usize,
)
    requires
        !u.docker.searching,
        u.docker.selected == Some(i),
        i < containers.len(),
    ensures
        ({
            let c = containers[i as int];
            let n = c.name@;
            &&& spec_docker_key(u, containers, ws_empty, Key::Char('S')) == (
                u,
                if c.status == ContainerStatus::Running {
                    seq![
                        EffectView::Container(ContainerAction::Stop, n),
                        EffectView::Notify("Stopping container "@ + n),
                    ]
                } else {
                    seq![
                        EffectView::Container(ContainerAction::Start, n),
                        EffectView::Notify("Starting container "@ + n),
                    ]
                },
            )
            &&& spec_docker_key(u, containers, ws_empty, Key::Char('K')) == (
                u,
                seq![
                    EffectView::Container(ContainerAction::Stop, n),
                    EffectView::Notify("Stopping container "@ + n),
                ],
            )
            &&& spec_docker_key(u, containers, ws_empty, Key::Char('R')) == (
                u,
                seq![
                    EffectView::Container(ContainerAction::Restart, n),
                    EffectView::Notify("Restarting container "@ + n),
                ],
            )
            &&& spec_docker_key(u, containers, ws_empty, Key::Char('E')) == (
                u,
                seq![EffectView::OpenShell(n)],
            )
            &&& spec_docker_key(u, containers, ws_empty, Key::Char('W')) == (
                u,
                seq![
                    EffectView::AddToWorkspace {
                        item_type: WorkspaceItemType::Container,
                        name: n,
                        create_default: ws_empty,
                    },
                ],
            )
            &&& spec_docker_key(u, containers, ws_empty, Key::Char('L')).1 == seq![
                EffectView::LoadContainerLogs { id: c.id@, fallback: true },
            ]
            &&& spec_docker_key(u, containers, ws_empty, Key::Char('L')).0.active == ActiveScreen::LogView
            &&& spec_docker_key(u, containers, ws_empty, Key::Char('L')).0.log.container_id == Some(c.id@)
            &&& spec_docker_key(u, containers, ws_empty, Key::Char('L')).0.log.title == n
        }),
{
}

/// The palette's `restart <target>` looks among the containers first: the
/// first shown container whose lower-cased name contains the target is
/// restarted, whatever the services are; only when no container matches is
/// the first matching service restarted; when neither does, it says so.
pub proof fn lemma_palette_restart(u: UiView, lists: Lists, text: Seq<char>)
    requires
        spec_words(text).len() > 0,
        spec_lowercase(spec_words(text)[0]) == "restart"@,
    ensures
        ({
            let t = command_target(spec_words(text));
            let cs = lists.containers@;
            let ss = lists.services@;
            let r = spec_run_command(u, lists, text);
            &&& r.0 == u
            &&& forall|k: int|
                0 <= k < cs.len() && hit(cs[k].name@, t) && (forall|j: int|
                    0 <= j < k ==> !hit(cs[j].name@, t)) ==> r.1 == seq![
                    EffectView::Container(ContainerAction::Restart, #[trigger] cs[k].name@),
                    EffectView::Notify("Restarted container "@ + cs[k].name@),
                ]
            &&& (forall|j: int| 0 <= j < cs.len() ==> !hit(#[trigger] cs[j].name@, t)) ==> (
            forall|k: int|
                0 <= k < ss.len() && hit(ss[k].name@, t) && (forall|j: int|
                    0 <= j < k ==> !hit(ss[j].name@, t)) ==> r.1 == seq![
                    EffectView::Service(ServiceAction::Restart, #[trigger] ss[k].name@),
                    EffectView::Notify("Restarted service "@ + ss[k].name@),
                ])
            &&& (forall|j: int| 0 <= j < cs.len() ==> !hit(#[trigger] cs[j].name@, t)) && (forall|
                j: int,
            |
                0 <= j < ss.len() ==> !hit(#[trigger] ss[j].name@, t)) ==> r.1 == seq![
                EffectView::Notify("Target '"@ + t + "' not found in containers or services"@),
            ]
        }),
{
    let t = command_target(spec_words(text));
    reveal_strlit("restart");
    reveal_strlit("kill");
    lemma_first_hit_is_first(container_names(lists.containers@), t);
    lemma_first_hit_is_first(service_names(lists.services@), t);
    assert forall|k: int|
        0 <= k < lists.containers@.len() && hit(lists.containers@[k].name@, t) && (forall|j: int|
            0 <= j < k ==> !hit(lists.containers@[j].name@, t)) implies first_hit(
        container_names(lists.containers@),
        t,
    ) == Some(k) by {
        lemma_first_hit_unique(container_names(lists.containers@), t, k);
    }
    assert forall|k: int|
        0 <= k < lists.services@.len() && hit(lists.services@[k].name@, t) && (forall|j: int|
            0 <= j < k ==> !hit(lists.services@[j].name@, t)) implies first_hit(
        service_names(lists.services@),
        t,
    ) == Some(k) by {
        lemma_first_hit_unique(service_names(lists.services@), t, k);
    }
}


/// On the process list with no search open: `p`, `n`, `c` and `m` order by
/// pid, name, CPU and memory, `r` reverses the order, each asking a re-sort;
/// `t` switches the tree view and says which way; `o` shows the ports;
/// Esc, `q` and `Q` quit; Enter on a row opens that process's details and
/// `W` adds it to a workspace.
pub proof fn lemma_process_list_keys(u: UiView, rows: Seq<ProcessRow>, ws_empty: bool)
    requires
        !u.processes.searching,
    ensures
        ({
            let l = u.processes;
            let k = |c: char| spec_process_key(u, rows, ws_empty, Key::Char(c));
            &&& k('p') == (
                UiView { processes: ProcessListView { sort_by: SortColumn::Pid, ..l }, ..u },
                seq![EffectView::SortProcesses],
            )
            &&& k('n') == (
                UiView { processes: ProcessListView { sort_by: SortColumn::Name, ..l }, ..u },
                seq![EffectView::SortProcesses],
            )
            &&& k('c') == (
                UiView { processes: ProcessListView { sort_by: SortColumn::Cpu, ..l }, ..u },
                seq![EffectView::SortProcesses],
            )
            &&& k('m') == (
                UiView { processes: ProcessListView { sort_by: SortColumn::Memory, ..l }, ..u },
                seq![EffectView::SortProcesses],
            )
            &&& k('r') == (
                UiView {
                    processes: ProcessListView { sort_descending: !l.sort_descending, ..l },
                    ..u
                },
                seq![EffectView::SortProcesses],
            )
            &&& k('t').0.processes.is_tree_view == !l.is_tree_view
            &&& k('t').1 == seq![
                EffectView::RefreshProcesses,
                EffectView::Notify(
                    if l.is_tree_view {
                        "Tree view disabled"@
                    } else {
                        "Tree view enabled"@
                    },
                ),
            ]
            &&& k('o') == (UiView { active: ActiveScreen::PortList, ..u }, Seq::<EffectView>::empty())
            &&& k('q') == (UiView { quit: true, ..u }, Seq::<EffectView>::empty())
            &&& k('Q') == (UiView { quit: true, ..u }, Seq::<EffectView>::empty())
            &&& spec_process_key(u, rows, ws_empty, Key::Esc) == (UiView { quit: true, ..u }, Seq::<EffectView>::empty())
            &&& forall|i: usize|
                l.selected == Some(i) && i < rows.len() ==> {
                    &&& spec_process_key(u, rows, ws_empty, Key::Enter) == (
                        UiView {
                            selected_pid: Some(#[trigger] rows[i as int].pid),
                            active: ActiveScreen::ProcessDetails,
                            ..u
                        },
                        Seq::<EffectView>::empty(),
                    )
                    &&& k('W').1 == seq![
                        EffectView::AddToWorkspace {
                            item_type: WorkspaceItemType::Process,
                            name: rows[i as int].name@,
                            create_default: ws_empty,
                        },
                    ]
                }
        }),
{
}

/// On a process's details, `K` kills that process, announces it, goes back
/// to a refreshed list; `T` shows the ports; Esc, `q` and `Q` go back.
pub proof fn lemma_details_keys(u: UiView, pid: u32)
    requires
        u.selected_pid == Some(pid),
    ensures
        spec_details_key(u, Key::Char('K')) == (
            UiView { active: ActiveScreen::ProcessList, ..u },
            seq![
                EffectView::KillProcess(pid),
                EffectView::Notify("Sent Kill to process "@ + spec_decimal(pid as nat)),
                EffectView::RefreshProcesses,
            ],
        ),
        spec_details_key(u, Key::Char('T')) == (UiView { active: ActiveScreen::PortList, ..u }, Seq::<EffectView>::empty()),
        spec_details_key(u, Key::Esc) == (UiView { active: ActiveScreen::ProcessList, ..u }, Seq::<EffectView>::empty()),
        spec_details_key(u, Key::Char('Q')) == (UiView { active: ActiveScreen::ProcessList, ..u }, Seq::<EffectView>::empty()),
{
}

/// On the log screen with no search open: `F` switches following the last
/// line and says which way; `C` empties the lines and says so; `E` asks an
/// export; `L`, `l` and `r` reload from the container if the logs are a
/// container's, else from the service; `/` opens the filter; the arrows
/// scroll one line.
pub proof fn lemma_log_keys(u: UiView)
    requires
        !u.log.searching,
    ensures
        ({
            let l = u.log;
            let k = |c: char| spec_log_key(u, Key::Char(c));
            &&& k('f') == (
                UiView { log: LogStateView { auto_scroll: !l.auto_scroll, ..l }, ..u },
                seq![
                    EffectView::Notify(
                        if l.auto_scroll {
                            "Auto-scroll: OFF"@
                        } else {
                            "Auto-scroll: ON"@
                        },
                    ),
                ],
            )
            &&& k('c').0.log.logs.len() == 0
            &&& k('c').0.log.title == l.title
            &&& k('c').1 == seq![EffectView::Notify("Log buffer cleared"@)]
            &&& k('e') == (u, seq![EffectView::ExportLogs])
            &&& k('/').0.log.searching
            &&& (l.container_id matches Some(id) ==> k('r') == (u, seq![EffectView::ReloadContainerLogs(id)]))
            &&& (l.container_id is None ==> (l.service_name matches Some(n) ==> k('L') == (
                u,
                seq![EffectView::ReloadServiceLogs(n)],
            )))
            &&& (l.container_id is None && l.service_name is None ==> k('l') == (u, Seq::<EffectView>::empty()))
            &&& (l.scroll > 0 ==> spec_log_key(u, Key::Up).0.log.scroll == l.scroll - 1)
            &&& (l.scroll < line_count(l.logs.len()) ==> spec_log_key(u, Key::Down).0.log.scroll
                == l.scroll + 1)
        }),
{
}

/// The palette's `kill <target>` kills the first shown process whose
/// lower-cased name contains the target and names it with its pid; with
/// none, it says the process was not found.
pub proof fn lemma_palette_kill(u: UiView, lists: Lists, text: Seq<char>)
    requires
        spec_words(text).len() > 0,
        spec_lowercase(spec_words(text)[0]) == "kill"@,
    ensures
        ({
            let t = command_target(spec_words(text));
            let rs = lists.processes@;
            let r = spec_run_command(u, lists, text);
            &&& r.0 == u
            &&& forall|k: int|
                0 <= k < rs.len() && hit(rs[k].name@, t) && (forall|j: int|
                    0 <= j < k ==> !hit(rs[j].name@, t)) ==> r.1 == seq![
                    EffectView::KillProcess(#[trigger] rs[k].pid),
                    EffectView::Notify(
                        "Killed process "@ + rs[k].name@ + " ("@ + spec_decimal(rs[k].pid as nat)
                            + ")"@,
                    ),
                ]
            &&& (forall|j: int| 0 <= j < rs.len() ==> !hit(#[trigger] rs[j].name@, t)) ==> r.1
                == seq![EffectView::Notify("Process '"@ + t + "' not found"@)]
        }),
{
    let t = command_target(spec_words(text));
    lemma_first_hit_is_first(process_names(lists.processes@), t);
    assert forall|k: int|
        0 <= k < lists.processes@.len() && hit(lists.processes@[k].name@, t) && (forall|j: int|
            0 <= j < k ==> !hit(lists.processes@[j].name@, t)) implies first_hit(
        process_names(lists.processes@),
        t,
    ) == Some(k) by {
        lemma_first_hit_unique(process_names(lists.processes@), t, k);
    }
}

/// The palette's `logs <target>` opens the logs of the first matching
/// container (by id, titled by name), else of the first matching service,
/// leaving them empty if they cannot be fetched; with neither it says so.
pub proof fn lemma_palette_logs(u: UiView, lists: Lists, text: Seq<char>)
    requires
        spec_words(text).len() > 0,
        spec_lowercase(spec_words(text)[0]) == "logs"@,
    ensures
        ({
            let t = command_target(spec_words(text));
            let cs = lists.containers@;
            let ss = lists.services@;
            let r = spec_run_command(u, lists, text);
            &&& forall|k: int|
                0 <= k < cs.len() && hit(cs[k].name@, t) && (forall|j: int|
                    0 <= j < k ==> !hit(cs[j].name@, t)) ==> {
                    &&& r.1 == seq![
                        EffectView::LoadContainerLogs { id: (#[trigger] cs[k]).id@, fallback: false },
                    ]
                    &&& r.0.active == ActiveScreen::LogView
                    &&& r.0.previous == u.active
                    &&& r.0.log.container_id == Some(cs[k].id@)
                    &&& r.0.log.title == cs[k].name@
                }
            &&& (forall|j: int| 0 <= j < cs.len() ==> !hit(#[trigger] cs[j].name@, t)) ==> (
            forall|k: int|
                0 <= k < ss.len() && hit(ss[k].name@, t) && (forall|j: int|
                    0 <= j < k ==> !hit(ss[j].name@, t)) ==> {
                    &&& r.1 == seq![
                        EffectView::LoadServiceLogs { name: (#[trigger] ss[k]).name@, fallback: false },
                    ]
                    &&& r.0.active == ActiveScreen::LogView
                    &&& r.0.log.service_name == Some(ss[k].name@)
                })
            &&& (forall|j: int| 0 <= j < cs.len() ==> !hit(#[trigger] cs[j].name@, t)) && (forall|
                j: int,
            |
                0 <= j < ss.len() ==> !hit(#[trigger] ss[j].name@, t)) ==> r == (
                u,
                seq![EffectView::Notify("Logs for '"@ + t + "' not found"@)],
            )
        }),
{
    let t = command_target(spec_words(text));
    reveal_strlit("logs");
    reveal_strlit("kill");
    reveal_strlit("restart");
    assert("logs"@ != "kill"@) by {
        assert("logs"@[0] != "kill"@[0]);
    }
    assert("logs"@ != "restart"@) by {
        assert("logs"@.len() != "restart"@.len());
    }
    assert(command_word(spec_words(text)) == "logs"@);
    assert(spec_run_command(u, lists, text) == spec_logs_command(
        u,
        lists.containers@,
        lists.services@,
        t,
    ));
    lemma_first_hit_is_first(container_names(lists.containers@), t);
    lemma_first_hit_is_first(service_names(lists.services@), t);
    assert forall|k: int|
        0 <= k < lists.containers@.len() && hit(lists.containers@[k].name@, t) && (forall|j: int|
            0 <= j < k ==> !hit(lists.containers@[j].name@, t)) implies first_hit(
        container_names(lists.containers@),
        t,
    ) == Some(k) by {
        lemma_first_hit_unique(container_names(lists.containers@), t, k);
    }
    assert forall|k: int|
        0 <= k < lists.services@.len() && hit(lists.services@[k].name@, t) && (forall|j: int|
            0 <= j < k ==> !hit(lists.services@[j].name@, t)) implies first_hit(
        service_names(lists.services@),
        t,
    ) == Some(k) by {
        lemma_first_hit_unique(service_names(lists.services@), t, k);
    }
}

proof fn lemma_holder_kills_members(pids: Seq<u32>, rows: Seq<ProcessRow>, port: u16)
    ensures
        forall|x: u32|
            holder_kills(pids, rows, port).contains(EffectView::KillProcess(x)) <==> (pids.contains(x)
                && is_shown(rows, x)),
        forall|k: int|
            0 <= k < holder_kills(pids, rows, port).len() ==> (#[trigger] holder_kills(
                pids,
                rows,
                port,
            )[k] is KillProcess || holder_kills(pids, rows, port)[k] is Notify),
    decreases pids.len(),
{
    if pids.len() > 0 {
        let d = pids.drop_last();
        let x0 = pids.last();
        lemma_holder_kills_members(d, rows, port);
        let h = holder_kills(d, rows, port);
        let tail = if is_shown(rows, x0) {
            seq![EffectView::KillProcess(x0), EffectView::Notify(kill_holder_note(x0, port))]
        } else {
            seq![]
        };
        assert(holder_kills(pids, rows, port) == h + tail);
        assert forall|x: u32|
            holder_kills(pids, rows, port).contains(EffectView::KillProcess(x)) <==> (pids.contains(
                x,
            ) && is_shown(rows, x)) by {
            let all = h + tail;
            if all.contains(EffectView::KillProcess(x)) {
                let k = choose|k: int| 0 <= k < all.len() && all[k] == EffectView::KillProcess(x);
                if k < h.len() {
                    assert(h[k] == all[k]);
                    assert(h.contains(EffectView::KillProcess(x)));
                    assert(d.contains(x));
                    let j = choose|j: int| 0 <= j < d.len() && d[j] == x;
                    assert(pids[j] == x);
                } else {
                    assert(tail[k - h.len()] == all[k]);
                    assert(x == x0);
                    assert(pids[pids.len() - 1] == x);
                }
            }
            if pids.contains(x) && is_shown(rows, x) {
                let j = choose|j: int| 0 <= j < pids.len() && pids[j] == x;
                if j < d.len() {
                    assert(d[j] == x);
                    assert(d.contains(x));
                    let k = choose|k: int| 0 <= k < h.len() && h[k] == EffectView::KillProcess(x);
                    assert(all[k] == h[k]);
                } else {
                    assert(x == x0);
                    assert(all[h.len() as int] == EffectView::KillProcess(x));
                }
            }
        }
        assert forall|k: int|
            0 <= k < holder_kills(pids, rows, port).len() implies (#[trigger] holder_kills(
            pids,
            rows,
            port,
        )[k] is KillProcess || holder_kills(pids, rows, port)[k] is Notify) by {
            if k < h.len() {
                assert((h + tail)[k] == h[k]);
            } else {
                assert((h + tail)[k] == tail[k - h.len()]);
            }
        }
    }
}

/// On the port list with a port selected and no search open, `K` kills
/// exactly those processes holding the port that are shown on the process
/// list, announces each, and then asks for the ports again; Enter opens
/// the details of the port's first holder when that process is shown.
pub proof fn lemma_port_list_keys(u: UiView, ports: Seq<PortInfo>, rows: Seq<ProcessRow>, i: usize)
    requires
        !u.ports.searching,
        u.ports.selected == Some(i),
        i < ports.len(),
    ensures
        ({
            let p = ports[i as int];
            let r = spec_port_key(u, ports, rows, Key::Char('K'));
            &&& r.0 == u
            &&& r.1.len() > 0
            &&& r.1.last() == EffectView::RefreshPorts
            &&& forall|x: u32|
                r.1.contains(EffectView::KillProcess(x)) <==> (p.pids@.contains(x) && is_shown(
                    rows,
                    x,
                ))
            &&& forall|k: int|
                0 <= k < r.1.len() - 1 ==> (#[trigger] r.1[k] is KillProcess || r.1[k] is Notify)
        }),
        ({
            let p = ports[i as int];
            p.pids@.len() > 0 && is_shown(rows, p.pids@[0]) ==> spec_port_key(
                u,
                ports,
                rows,
                Key::Enter,
            ) == (
                UiView { selected_pid: Some(p.pids@[0]), active: ActiveScreen::ProcessDetails, ..u },
                Seq::<EffectView>::empty(),
            )
        }),
{
    let p = ports[i as int];
    lemma_holder_kills_members(p.pids@, rows, p.local_port);
    let h = holder_kills(p.pids@, rows, p.local_port);
    let all = h + seq![EffectView::RefreshPorts];
    assert(spec_port_key(u, ports, rows, Key::Char('K')).1 == all);
    assert forall|x: u32| all.contains(EffectView::KillProcess(x)) <==> h.contains(
        EffectView::KillProcess(x),
    ) by {
        if all.contains(EffectView::KillProcess(x)) {
            let k = choose|k: int| 0 <= k < all.len() && all[k] == EffectView::KillProcess(x);
            assert(k < h.len());
            assert(h[k] == all[k]);
        }
        if h.contains(EffectView::KillProcess(x)) {
            let k = choose|k: int| 0 <= k < h.len() && h[k] == EffectView::KillProcess(x);
            assert(all[k] == h[k]);
        }
    }
    assert forall|k: int| 0 <= k < all.len() - 1 implies (#[trigger] all[k] is KillProcess
        || all[k] is Notify) by {
        assert(all[k] == h[k]);
    }
}

proof fn lemma_items_effects_members(items: Seq<WorkspaceItem>, start: bool)
    ensures
        forall|k: int, j: int|
            0 <= k < items.len() && 0 <= j < item_effects(items[k], start).len() ==> items_effects(
                items,
                start,
            ).contains(#[trigger] item_effects(items[k], start)[j]),
        start ==> forall|x: Seq<char>|
            !items_effects(items, start).contains(EffectView::KillProcessesNamed(x)),
    decreases items.len(),
{
    if items.len() > 0 {
        let d = items.drop_last();
        lemma_items_effects_members(d, start);
        let h = items_effects(d, start);
        let t = item_effects(items.last(), start);
        let all = h + t;
        assert(items_effects(items, start) == all);
        assert forall|k: int, j: int|
            0 <= k < items.len() && 0 <= j < item_effects(items[k], start).len() implies all.contains(
            #[trigger] item_effects(items[k], start)[j],
        ) by {
            if k < d.len() {
                assert(items[k] == d[k]);
                assert(h.contains(item_effects(d[k], start)[j]));
                let m = choose|m: int| 0 <= m < h.len() && h[m] == item_effects(d[k], start)[j];
                assert(all[m] == h[m]);
            } else {
                assert(all[h.len() + j] == t[j]);
            }
        }
        if start {
            assert forall|x: Seq<char>| !all.contains(EffectView::KillProcessesNamed(x)) by {
                if all.contains(EffectView::KillProcessesNamed(x)) {
                    let m = choose|m: int|
                        0 <= m < all.len() && all[m] == EffectView::KillProcessesNamed(x);
                    if m < h.len() {
                        assert(all[m] == h[m]);
                        assert(h.contains(EffectView::KillProcessesNamed(x)));
                    } else {
                        assert(all[m] == t[m - h.len()]);
                    }
                }
            }
        }
    }
}

/// On the workspace list with a workspace selected and no search open,
/// `S` starts every service and container of the workspace and kills
/// nothing, while `K` stops every service and container and kills the
/// processes named by each process item; both end by saying how many items
/// they were sent to, and change nothing else.
pub proof fn lemma_workspace_start_stop(u: UiView, ws: Seq<WorkspaceInfo>, i: usize)
    requires
        !u.workspaces.searching,
        u.workspaces.selected == Some(i),
        i < ws.len(),
    ensures
        ({
            let its = ws[i as int].items@;
            let s = spec_workspace_key(u, ws, Key::Char('S'));
            let k = spec_workspace_key(u, ws, Key::Char('K'));
            &&& s.0 == u
            &&& k.0 == u
            &&& s.1.last() == EffectView::Notify(
                "Sent Start to "@ + spec_decimal(its.len()) + " items"@,
            )
            &&& k.1.last() == EffectView::Notify(
                "Sent Kill/Stop to "@ + spec_decimal(its.len()) + " items"@,
            )
            &&& forall|x: Seq<char>| !s.1.contains(EffectView::KillProcessesNamed(x))
            &&& forall|j: int|
                0 <= j < its.len() ==> {
                    let n = (#[trigger] its[j]).item_name@;
                    &&& (its[j].item_type == WorkspaceItemType::Service ==> s.1.contains(
                        EffectView::Service(ServiceAction::Start, n),
                    ) && k.1.contains(EffectView::Service(ServiceAction::Stop, n)))
                    &&& (its[j].item_type == WorkspaceItemType::Container ==> s.1.contains(
                        EffectView::Container(ContainerAction::Start, n),
                    ) && k.1.contains(EffectView::Container(ContainerAction::Stop, n)))
                    &&& (its[j].item_type == WorkspaceItemType::Process ==> k.1.contains(
                        EffectView::KillProcessesNamed(n),
                    ))
                }
        }),
{
    let its = ws[i as int].items@;
    lemma_items_effects_members(its, true);
    lemma_items_effects_members(its, false);
    let hs = items_effects(its, true);
    let hk = items_effects(its, false);
    let ns = EffectView::Notify("Sent Start to "@ + spec_decimal(its.len()) + " items"@);
    let nk = EffectView::Notify("Sent Kill/Stop to "@ + spec_decimal(its.len()) + " items"@);
    let s = spec_workspace_key(u, ws, Key::Char('S'));
    let k = spec_workspace_key(u, ws, Key::Char('K'));
    assert(s.1 == hs + seq![ns]);
    assert(k.1 == hk + seq![nk]);
    assert forall|x: Seq<char>| !s.1.contains(EffectView::KillProcessesNamed(x)) by {
        if s.1.contains(EffectView::KillProcessesNamed(x)) {
            let m = choose|m: int| 0 <= m < s.1.len() && s.1[m] == EffectView::KillProcessesNamed(x);
            assert(m < hs.len());
            assert(s.1[m] == hs[m]);
            assert(hs.contains(EffectView::KillProcessesNamed(x)));
        }
    }
    assert forall|j: int| 0 <= j < its.len() implies {
        let n = (#[trigger] its[j]).item_name@;
        &&& (its[j].item_type == WorkspaceItemType::Service ==> s.1.contains(
            EffectView::Service(ServiceAction::Start, n),
        ) && k.1.contains(EffectView::Service(ServiceAction::Stop, n)))
        &&& (its[j].item_type == WorkspaceItemType::Container ==> s.1.contains(
            EffectView::Container(ContainerAction::Start, n),
        ) && k.1.contains(EffectView::Container(ContainerAction::Stop, n)))
        &&& (its[j].item_type == WorkspaceItemType::Process ==> k.1.contains(
            EffectView::KillProcessesNamed(n),
        ))
    } by {
        let es = item_effects(its[j], true);
        let ek = item_effects(its[j], false);
        if its[j].item_type != WorkspaceItemType::Process {
            assert(hs.contains(es[0]));
            let m = choose|m: int| 0 <= m < hs.len() && hs[m] == es[0];
            assert(s.1[m] == hs[m]);
        }
        assert(hk.contains(ek[0]));
        let m2 = choose|m: int| 0 <= m < hk.len() && hk[m] == ek[0];
        assert(k.1[m2] == hk[m2]);
    }
}

/// On the server list, Enter connects to the selected server when it is
/// one of the listed servers; Esc, `q` and `Q` go back to the process list;
/// moving down and then up (or up and then down) comes back to the server
/// one started from, and moving never leaves the listed servers.
pub proof fn lemma_server_list_keys(u: UiView, count: nat, i: usize)
    requires
        u.server_selected == Some(i),
        i < count <= usize::MAX,
    ensures
        spec_server_key(u, count, Key::Enter) == (u, seq![EffectView::ConnectServer(i as nat)]),
        spec_server_key(u, count, Key::Esc) == (
            UiView { active: ActiveScreen::ProcessList, ..u },
            Seq::<EffectView>::empty(),
        ),
        spec_server_key(u, count, Key::Char('q')) == spec_server_key(u, count, Key::Esc),
        spec_server_key(u, count, Key::Char('Q')) == spec_server_key(u, count, Key::Esc),
        spec_server_key(spec_server_key(u, count, Key::Down).0, count, Key::Up).0 == u,
        spec_server_key(spec_server_key(u, count, Key::Up).0, count, Key::Down).0 == u,
        in_range(spec_server_key(u, count, Key::Down).0.server_selected, count),
        in_range(spec_server_key(u, count, Key::Up).0.server_selected, count),
{
    lemma_wrap_round_trip(i, count);
    lemma_navigation_stays_in_range(Some(i), count);
    assert(in_range(Some(i), count));
}

/// The palette's `servers` opens the server list and `quit` or `q` (in any
/// case) quits, each asking for nothing; an empty line does nothing, and a
/// line whose first word is none of the palette's commands only says that
/// the command is unknown, naming it lower-cased.
pub proof fn lemma_palette_other_commands(u: UiView, lists: Lists, text: Seq<char>)
    ensures
        spec_words(text).len() == 0 ==> spec_run_command(u, lists, text) == (
            u,
            Seq::<EffectView>::empty(),
        ),
        spec_words(text).len() > 0 ==> ({
            let c = spec_lowercase(spec_words(text)[0]);
            let r = spec_run_command(u, lists, text);
            &&& c == "servers"@ ==> r == (
                UiView { active: ActiveScreen::ServerList, ..u },
                Seq::<EffectView>::empty(),
            )
            &&& (c == "quit"@ || c == "q"@) ==> r == (
                UiView { quit: true, ..u },
                Seq::<EffectView>::empty(),
            )
            &&& (c != "kill"@ && c != "restart"@ && c != "logs"@ && c != "servers"@ && c != "quit"@
                && c != "q"@) ==> r == (u, seq![EffectView::Notify("Unknown command: "@ + c)])
        }),
{
    reveal_strlit("kill");
    reveal_strlit("restart");
    reveal_strlit("logs");
    reveal_strlit("servers");
    reveal_strlit("quit");
    reveal_strlit("q");
    assert("servers"@ != "restart"@) by {
        assert("servers"@[0] != "restart"@[0]);
    }
    assert("quit"@ != "kill"@) by {
        assert("quit"@[0] != "kill"@[0]);
    }
    assert("quit"@ != "logs"@) by {
        assert("quit"@[0] != "logs"@[0]);
    }
}

/// An open box takes every key, even the global ones: with the palette or
/// the new-workspace prompt open, `V` and `:` are typed into it, nothing
/// else changes and nothing is asked.
pub proof fn lemma_open_box_takes_keys(u: UiView, lists: Lists, c: char)
    requires
        c == 'V' || c == 'v' || c == ':',
    ensures
        u.palette ==> spec_handle_key(u, lists, Key::Char(c)) == (
            UiView { palette_text: u.palette_text.push(c), ..u },
            Seq::<EffectView>::empty(),
        ),
        !u.palette && u.prompting ==> spec_handle_key(u, lists, Key::Char(c)) == (
            UiView { prompt_text: u.prompt_text.push(c), ..u },
            Seq::<EffectView>::empty(),
        ),
{
}

/// In the new-workspace prompt, Enter closes the prompt and creates a
/// workspace named by what was typed, unless nothing was; Esc closes it
/// and creates nothing. Either way the typed text is cleared.
pub proof fn lemma_prompt_keys(u: UiView)
    ensures
        spec_prompt_key(u, Key::Enter).0 == spec_prompt_key(u, Key::Esc).0,
        !spec_prompt_key(u, Key::Esc).0.prompting,
        spec_prompt_key(u, Key::Esc).0.prompt_text.len() == 0,
        spec_prompt_key(u, Key::Esc).1.len() == 0,
        u.prompt_text.len() > 0 ==> spec_prompt_key(u, Key::Enter).1 == seq![
            EffectView::CreateWorkspace(u.prompt_text),
        ],
        u.prompt_text.len() == 0 ==> spec_prompt_key(u, Key::Enter).1.len() == 0,
{
}

/// In the palette, Enter closes it and runs exactly the line typed so far;
/// Esc closes it and runs nothing.
pub proof fn lemma_palette_runs_typed(u: UiView, lists: Lists)
    ensures
        spec_palette_key(u, lists, Key::Enter) == spec_run_command(
            spec_palette_key(u, lists, Key::Esc).0,
            lists,
            u.palette_text,
        ),
        !spec_palette_key(u, lists, Key::Esc).0.palette,
        spec_palette_key(u, lists, Key::Esc).0.palette_text.len() == 0,
        spec_palette_key(u, lists, Key::Esc).1.len() == 0,
{
}

/// The configured default view picks the screen shown at start: each of
/// `DockerList`, `ServiceList`, `WorkspaceList` and `PortList` opens that
/// list, and anything else, or no view at all, opens the process list.
pub proof fn lemma_initial_screen_views(other: Seq<char>)
    ensures
        spec_initial_screen(Some("DockerList"@)) == ActiveScreen::DockerList,
        spec_initial_screen(Some("ServiceList"@)) == ActiveScreen::ServiceList,
        spec_initial_screen(Some("WorkspaceList"@)) == ActiveScreen::WorkspaceList,
        spec_initial_screen(Some("PortList"@)) == ActiveScreen::PortList,
        spec_initial_screen(None) == ActiveScreen::ProcessList,
        other != "DockerList"@ && other != "ServiceList"@ && other != "WorkspaceList"@ && other
            != "PortList"@ ==> spec_initial_screen(Some(other)) == ActiveScreen::ProcessList,
{
    reveal_strlit("DockerList");
    reveal_strlit("ServiceList");
    reveal_strlit("WorkspaceList");
    reveal_strlit("PortList");
    assert("ServiceList"@ != "DockerList"@) by {
        assert("ServiceList"@[0] != "DockerList"@[0]);
    }
    assert("WorkspaceList"@ != "DockerList"@ && "WorkspaceList"@ != "ServiceList"@) by {
        assert("WorkspaceList"@[0] != "DockerList"@[0]);
    }
    assert("PortList"@ != "DockerList"@ && "PortList"@ != "ServiceList"@ && "PortList"@
        != "WorkspaceList"@) by {
        assert("PortList"@[0] != "DockerList"@[0]);
    }
}

} // verus!
