//! Workspaces: named groups of processes, services and containers, stored
//! in the database or declared in the configuration file.
use vstd::prelude::*;
use crate::configuration::{
    opt_views, WorkspaceConfig, WorkspaceConfigView, copy_named_configs, named_config_views,
};
use crate::text::{copy_str, str_eq, views};

verus! {

/// What kind of thing a workspace item names.
#[derive(Debug, Clone, Copy, PartialEq, Eq, Structural)]
pub enum WorkspaceItemType {
    Process,
    Service,
    Container,
}

/// The name under which an item type is stored.
pub open spec fn item_type_name(t: WorkspaceItemType) -> Seq<char> {
    match t {
        WorkspaceItemType::Process => "process"@,
        WorkspaceItemType::Service => "service"@,
        WorkspaceItemType::Container => "container"@,
    }
}

/// The item type stored under `s`, if any.
pub open spec fn item_type_from(s: Seq<char>) -> Option<WorkspaceItemType> {
    if s == "process"@ {
        Some(WorkspaceItemType::Process)
    } else if s == "service"@ {
        Some(WorkspaceItemType::Service)
    } else if s == "container"@ {
        Some(WorkspaceItemType::Container)
    } else {
        None
    }
}

impl WorkspaceItemType {
    /// The name under which this type is stored.
    pub fn as_str(&self) -> (s: &'static str)
        ensures
            s@ == item_type_name(*self),
    {
        match self {
            WorkspaceItemType::Process => "process",
            WorkspaceItemType::Service => "service",
            WorkspaceItemType::Container => "container",
        }
    }

    /// The type stored under `s`; `None` for any other text.
    pub fn from_str(s: &str) -> (o: Option<WorkspaceItemType>)
        ensures
            o == item_type_from(s@),
    {
        if str_eq(s, "process") {
            Some(WorkspaceItemType::Process)
        } else if str_eq(s, "service") {
            Some(WorkspaceItemType::Service)
        } else if str_eq(s, "container") {
            Some(WorkspaceItemType::Container)
        } else {
            None
        }
    }
}

/// Reading back the stored name of a type gives that type.
pub proof fn lemma_item_type_round_trip(t: WorkspaceItemType)
    ensures
        item_type_from(item_type_name(t)) == Some(t),
{
    reveal_strlit("process");
    reveal_strlit("service");
    reveal_strlit("container");
    assert("service"@ != "process"@) by {
        assert("service"@[0] != "process"@[0]);
    }
    assert("container"@ != "process"@) by {
        assert("container"@[0] != "process"@[0]);
    }
    assert("container"@ != "service"@) by {
        assert("container"@[0] != "service"@[0]);
    }
}

/// A text that reads as a type is that type's stored name.
pub proof fn lemma_item_type_name_unique(s: Seq<char>)
    ensures
        item_type_from(s) matches Some(t) ==> item_type_name(t) == s,
{
}

/// One member of a workspace.
#[derive(Debug, Clone)]
pub struct WorkspaceItem {
    pub id: i64,
    pub item_type: WorkspaceItemType,
    pub item_name: String,
}

/// A [`WorkspaceItem`] with its name taken by its characters.
pub struct WorkspaceItemView {
    pub id: int,
    pub item_type: WorkspaceItemType,
    pub item_name: Seq<char>,
}

impl View for WorkspaceItem {
    type V = WorkspaceItemView;

    open spec fn view(&self) -> WorkspaceItemView {
        WorkspaceItemView { id: self.id as int, item_type: self.item_type, item_name: self.item_name@ }
    }
}

/// The views of a list of items.
pub open spec fn item_views(v: Seq<WorkspaceItem>) -> Seq<WorkspaceItemView> {
    v.map_values(|i: WorkspaceItem| i@)
}

/// A workspace and its members.
#[derive(Debug, Clone)]
pub struct WorkspaceInfo {
    pub id: i64,
    pub name: String,
    pub description: Option<String>,
    pub items: Vec<WorkspaceItem>,
}

/// A [`WorkspaceInfo`] taken by its characters.
pub struct WorkspaceInfoView {
    pub id: int,
    pub name: Seq<char>,
    pub description: Option<Seq<char>>,
    pub items: Seq<WorkspaceItemView>,
}

/// The view of an optional text.
pub open spec fn opt_text(o: Option<String>) -> Option<Seq<char>> {
    match o {
        Some(s) => Some(s@),
        None => None,
    }
}

impl View for WorkspaceInfo {
    type V = WorkspaceInfoView;

    open spec fn view(&self) -> WorkspaceInfoView {
        WorkspaceInfoView {
            id: self.id as int,
            name: self.name@,
            description: opt_text(self.description),
            items: item_views(self.items@),
        }
    }
}

/// The views of a list of workspaces.
pub open spec fn workspace_views(v: Seq<WorkspaceInfo>) -> Seq<WorkspaceInfoView> {
    v.map_values(|w: WorkspaceInfo| w@)
}

fn copy_opt_text(o: &Option<String>) -> (c: Option<String>)
    ensures
        opt_text(c) == opt_text(*o),
{
    match o {
        Some(s) => Some(copy_str(s.as_str())),
        None => None,
    }
}

impl WorkspaceItem {
    /// A copy of this item.
    pub fn duplicate(&self) -> (c: WorkspaceItem)
        ensures
            c@ == self@,
    {
        WorkspaceItem {
            id: self.id,
            item_type: self.item_type,
            item_name: copy_str(self.item_name.as_str()),
        }
    }
}

impl WorkspaceInfo {
    /// A copy of this workspace.
    pub fn duplicate(&self) -> (c: WorkspaceInfo)
        ensures
            c@ == self@,
    {
        let mut items: Vec<WorkspaceItem> = Vec::new();
        let mut i: usize = 0;
        while i < self.items.len()
            invariant
                i <= self.items@.len(),
                items@.len() == i,
                forall|k: int| 0 <= k < i ==> (#[trigger] items@[k])@ == self.items@[k]@,
            decreases self.items@.len() - i,
        {
            items.push(self.items[i].duplicate());
            i = i + 1;
        }
        assert(item_views(items@) =~= item_views(self.items@));
        WorkspaceInfo {
            id: self.id,
            name: copy_str(self.name.as_str()),
            description: copy_opt_text(&self.description),
            items,
        }
    }
}

/// A copy of a list of workspaces.
pub fn copy_workspaces(v: &Vec<WorkspaceInfo>) -> (c: Vec<WorkspaceInfo>)
    ensures
        workspace_views(c@) == workspace_views(v@),
{
    let mut c: Vec<WorkspaceInfo> = Vec::new();
    let mut i: usize = 0;
    while i < v.len()
        invariant
            i <= v@.len(),
            c@.len() == i,
            forall|k: int| 0 <= k < i ==> (#[trigger] c@[k])@ == v@[k]@,
        decreases v@.len() - i,
    {
        c.push(v[i].duplicate());
        i = i + 1;
    }
    assert(workspace_views(c@) =~= workspace_views(v@));
    c
}

// ---------------------------------------------------------------------------
// Workspaces read from the database
// ---------------------------------------------------------------------------

/// A row of the `workspace_items` table.
pub struct ItemRow {
    pub id: i64,
    pub item_type: String,
    pub item_name: String,
}

/// A row of the `workspaces` table with the rows of its items.
pub struct WorkspaceRow {
    pub id: i64,
    pub name: String,
    pub description: Option<String>,
    pub items: Vec<ItemRow>,
}

/// The items of a workspace's rows whose type is known, in order.
pub open spec fn known_items(rows: Seq<ItemRow>) -> Seq<WorkspaceItemView>
    decreases rows.len(),
{
    if rows.len() == 0 {
        seq![]
    } else {
        known_items(rows.drop_last()) + match item_type_from(rows.last().item_type@) {
            Some(t) => seq![
                WorkspaceItemView {
                    id: rows.last().id as int,
                    item_type: t,
                    item_name: rows.last().item_name@,
                },
            ],
            None => seq![],
        }
    }
}

/// The workspaces stored in the database.
pub open spec fn stored_workspaces(rows: Seq<WorkspaceRow>) -> Seq<WorkspaceInfoView> {
    rows.map_values(
        |r: WorkspaceRow|
            WorkspaceInfoView {
                id: r.id as int,
                name: r.name@,
                description: opt_text(r.description),
                items: known_items(r.items@),
            },
    )
}

fn workspace_from_row(r: &WorkspaceRow) -> (w: WorkspaceInfo)
    ensures
        w@ == (WorkspaceInfoView {
            id: r.id as int,
            name: r.name@,
            description: opt_text(r.description),
            items: known_items(r.items@),
        }),
{
    let mut items: Vec<WorkspaceItem> = Vec::new();
    let mut i: usize = 0;
    while i < r.items.len()
        invariant
            i <= r.items@.len(),
            item_views(items@) == known_items(r.items@.take(i as int)),
        decreases r.items@.len() - i,
    {
        let row = &r.items[i];
        let ghost prev = items@;
        assert(r.items@.take(i + 1).drop_last() == r.items@.take(i as int));
        assert(r.items@.take(i + 1).last() == r.items@[i as int]);
        match WorkspaceItemType::from_str(row.item_type.as_str()) {
            Some(t) => {
                items.push(
                    WorkspaceItem {
                        id: row.id,
                        item_type: t,
                        item_name: copy_str(row.item_name.as_str()),
                    },
                );
                assert(item_views(items@) =~= item_views(prev) + seq![items@.last()@]);
            },
            None => {
                assert(item_views(items@) =~= item_views(prev) + Seq::<WorkspaceItemView>::empty());
            },
        }
        i = i + 1;
    }
    assert(r.items@.take(r.items@.len() as int) == r.items@);
    WorkspaceInfo {
        id: r.id,
        name: copy_str(r.name.as_str()),
        description: copy_opt_text(&r.description),
        items,
    }
}

// ---------------------------------------------------------------------------
// Workspaces declared in the configuration
// ---------------------------------------------------------------------------

/// The names of an optional list, or none.
pub open spec fn names_of(o: Option<Seq<Seq<char>>>) -> Seq<Seq<char>> {
    match o {
        Some(v) => v,
        None => seq![],
    }
}

/// The members a declaration lists: its processes, then its containers,
/// then its services.
pub open spec fn config_entries(c: WorkspaceConfigView) -> Seq<(WorkspaceItemType, Seq<char>)> {
    names_of(c.processes).map_values(|n: Seq<char>| (WorkspaceItemType::Process, n))
        + names_of(c.containers).map_values(|n: Seq<char>| (WorkspaceItemType::Container, n))
        + names_of(c.services).map_values(|n: Seq<char>| (WorkspaceItemType::Service, n))
}

/// The items of a declaration, numbered downwards from `start`.
pub open spec fn config_items(c: WorkspaceConfigView, start: int) -> Seq<WorkspaceItemView> {
    let e = config_entries(c);
    Seq::new(
        e.len(),
        |k: int| WorkspaceItemView { id: start - k, item_type: e[k].0, item_name: e[k].1 },
    )
}

/// The workspaces declared in the configuration, numbered downwards from
/// `start`: each item takes the next number, then its workspace takes the
/// following one. Their description says where they come from.
pub open spec fn declared_workspaces(cfg: Seq<(Seq<char>, WorkspaceConfigView)>, start: int) -> Seq<
    WorkspaceInfoView,
>
    decreases cfg.len(),
{
    if cfg.len() == 0 {
        seq![]
    } else {
        let n = config_entries(cfg[0].1).len();
        seq![
            WorkspaceInfoView {
                id: start - n,
                name: cfg[0].0,
                description: Some("From config.toml"@),
                items: config_items(cfg[0].1, start),
            },
        ] + declared_workspaces(cfg.drop_first(), start - n - 1)
    }
}

/// Declared workspaces and their items are numbered below zero, so they are
/// never taken for stored ones (see [`is_stored`]).
pub proof fn lemma_declared_not_stored(cfg: Seq<(Seq<char>, WorkspaceConfigView)>, start: int)
    requires
        start < 0,
    ensures
        forall|i: int|
            0 <= i < declared_workspaces(cfg, start).len() ==> {
                let w = #[trigger] declared_workspaces(cfg, start)[i];
                &&& w.id < 0
                &&& forall|k: int| 0 <= k < w.items.len() ==> #[trigger] w.items[k].id < 0
            },
    decreases cfg.len(),
{
    if cfg.len() > 0 {
        let n = config_entries(cfg[0].1).len();
        let rest = declared_workspaces(cfg.drop_first(), start - n - 1);
        lemma_declared_not_stored(cfg.drop_first(), start - n - 1);
        let all = declared_workspaces(cfg, start);
        assert forall|i: int| 0 <= i < all.len() implies {
            let w = #[trigger] all[i];
            &&& w.id < 0
            &&& forall|k: int| 0 <= k < w.items.len() ==> #[trigger] w.items[k].id < 0
        } by {
            if i > 0 {
                assert(all[i] == rest[i - 1]);
            }
        }
    }
}

/// How many numbers the declarations use up.
pub open spec fn config_size(cfg: Seq<(Seq<char>, WorkspaceConfigView)>) -> nat
    decreases cfg.len(),
{
    if cfg.len() == 0 {
        0
    } else {
        config_entries(cfg[0].1).len() + 1 + config_size(cfg.drop_first())
    }
}

/// The declarations can be numbered downwards from -1 within `i64`.
pub open spec fn config_fits(cfg: Seq<(Seq<char>, WorkspaceConfigView)>) -> bool {
    config_size(cfg) <= i64::MAX
}

/// How many names an optional list holds.
fn names_len(o: &Option<Vec<String>>) -> (n: usize)
    ensures
        n == names_of(opt_views(*o)).len(),
{
    match o {
        Some(v) => v.len(),
        None => 0,
    }
}

/// `min(a + b, cap)` for `a` and `b` at most `cap`.
fn capped_sum(a: u64, b: u64, cap: u64) -> (r: u64)
    requires
        a <= cap,
        b <= cap,
    ensures
        r == if a + b <= cap {
            a + b
        } else {
            cap as int
        },
{
    if b >= cap - a {
        cap
    } else {
        a + b
    }
}

/// Whether the declarations can be numbered within `i64` (what
/// [`WorkspaceManager::load_config_workspaces`] needs).
pub fn declarations_fit(cfg: &Vec<(String, WorkspaceConfig)>) -> (b: bool)
    ensures
        b == config_fits(named_config_views(cfg@)),
{
    let ghost all = named_config_views(cfg@);
    let cap: u64 = 0x8000_0000_0000_0000;
    let mut total: u64 = 0;
    let mut i: usize = cfg.len();
    assert(all.skip(all.len() as int) =~= Seq::<(Seq<char>, WorkspaceConfigView)>::empty());
    while i > 0
        invariant
            i <= cfg@.len(),
            all == named_config_views(cfg@),
            cap == 0x8000_0000_0000_0000u64,
            total == if config_size(all.skip(i as int)) <= cap {
                config_size(all.skip(i as int))
            } else {
                cap as nat
            },
        decreases i,
    {
        i = i - 1;
        let conf = &cfg[i].1;
        let p = names_len(&conf.processes);
        let c = names_len(&conf.containers);
        let s = names_len(&conf.services);
        let ghost e = config_entries(conf@);
        assert(e.len() == p + c + s);
        assert(all.skip(i as int)[0] == all[i as int]);
        assert(all.skip(i as int).drop_first() == all.skip(i + 1));
        let t1 = capped_sum(if p as u64 <= cap { p as u64 } else { cap }, if c as u64 <= cap { c as u64 } else { cap }, cap);
        let t2 = capped_sum(t1, if s as u64 <= cap { s as u64 } else { cap }, cap);
        let t3 = capped_sum(t2, 1, cap);
        total = capped_sum(t3, total, cap);
    }
    assert(all.skip(0) =~= all);
    total < cap
}

fn push_named(
    items: &mut Vec<WorkspaceItem>,
    names: &Option<Vec<String>>,
    t: WorkspaceItemType,
    pseudo_id: &mut i64,
    Ghost(c): Ghost<WorkspaceConfigView>,
    Ghost(start): Ghost<int>,
    Ghost(before): Ghost<int>,
)
    requires
        before == old(items)@.len(),
        *old(pseudo_id) == start - before,
        *old(pseudo_id) - names_of(opt_views(*names)).len() > i64::MIN,
        item_views(old(items)@) == config_items(c, start).take(before),
        before + names_of(opt_views(*names)).len() <= config_entries(c).len(),
        forall|k: int|
            0 <= k < names_of(opt_views(*names)).len() ==> config_entries(c)[before + k]
                == (t, #[trigger] names_of(opt_views(*names))[k]),
    ensures
        final(items)@.len() == before + names_of(opt_views(*names)).len(),
        *final(pseudo_id) == start - final(items)@.len(),
        item_views(final(items)@) == config_items(c, start).take(final(items)@.len() as int),
{
    match names {
        Some(v) => {
            let mut j: usize = 0;
            while j < v.len()
                invariant
                    j <= v@.len(),
                    items@.len() == before + j,
                    *pseudo_id == start - items@.len(),
                    start - before - v@.len() > i64::MIN,
                    item_views(items@) == config_items(c, start).take(items@.len() as int),
                    before + v@.len() <= config_entries(c).len(),
                    forall|k: int|
                        0 <= k < v@.len() ==> config_entries(c)[before + k] == (
                            t,
                            #[trigger] views(v@)[k],
                        ),
                decreases v@.len() - j,
            {
                let ghost prev = items@;
                assert(views(v@)[j as int] == v@[j as int]@);
                items.push(
                    WorkspaceItem {
                        id: *pseudo_id,
                        item_type: t,
                        item_name: copy_str(v[j].as_str()),
                    },
                );
                *pseudo_id = *pseudo_id - 1;
                assert(item_views(items@) =~= config_items(c, start).take(items@.len() as int));
                j = j + 1;
            }
        },
        None => {},
    }
}

fn workspaces_from_config(
    out: &mut Vec<WorkspaceInfo>,
    cfg: &Vec<(String, WorkspaceConfig)>,
)
    requires
        config_fits(named_config_views(cfg@)),
    ensures
        workspace_views(final(out)@) == workspace_views(old(out)@) + declared_workspaces(
            named_config_views(cfg@),
            -1,
        ),
{
    let ghost all = named_config_views(cfg@);
    let ghost base = workspace_views(out@);
    let mut pseudo_id: i64 = -1;
    let mut i: usize = 0;
    assert(all.skip(0) == all);
    while i < cfg.len()
        invariant
            i <= cfg@.len(),
            all == named_config_views(cfg@),
            pseudo_id >= i64::MIN + config_size(all.skip(i as int)),
            pseudo_id <= -1,
            workspace_views(out@) + declared_workspaces(all.skip(i as int), pseudo_id as int) == base
                + declared_workspaces(all, -1),
        decreases cfg@.len() - i,
    {
        let (name, conf) = &cfg[i];
        let ghost rest = all.skip(i as int);
        let ghost c = conf@;
        let ghost start = pseudo_id as int;
        let ghost e = config_entries(c);
        assert(rest[0] == (name@, c));
        assert(rest.drop_first() == all.skip(i + 1));
        let ghost np = names_of(opt_views(conf.processes)).len();
        let ghost nc = names_of(opt_views(conf.containers)).len();
        let ghost ns = names_of(opt_views(conf.services)).len();
        assert(e.len() == np + nc + ns);
        let mut items: Vec<WorkspaceItem> = Vec::new();
        assert(item_views(items@) =~= config_items(c, start).take(0));
        push_named(
            &mut items,
            &conf.processes,
            WorkspaceItemType::Process,
            &mut pseudo_id,
            Ghost(c),
            Ghost(start),
            Ghost(0),
        );
        push_named(
            &mut items,
            &conf.containers,
            WorkspaceItemType::Container,
            &mut pseudo_id,
            Ghost(c),
            Ghost(start),
            Ghost(np as int),
        );
        push_named(
            &mut items,
            &conf.services,
            WorkspaceItemType::Service,
            &mut pseudo_id,
            Ghost(c),
            Ghost(start),
            Ghost((np + nc) as int),
        );
        assert(config_items(c, start).take(e.len() as int) == config_items(c, start));
        let ghost prev = out@;
        out.push(
            WorkspaceInfo {
                id: pseudo_id,
                name: copy_str(name.as_str()),
                description: Some(String::from_str("From config.toml")),
                items,
            },
        );
        assert(workspace_views(out@) =~= workspace_views(prev) + seq![out@.last()@]);
        pseudo_id = pseudo_id - 1;
        i = i + 1;
    }
    assert(all.skip(cfg@.len() as int) =~= Seq::<(Seq<char>, WorkspaceConfigView)>::empty());
    assert(workspace_views(out@) + Seq::<WorkspaceInfoView>::empty() =~= workspace_views(out@));
}

// ---------------------------------------------------------------------------
// The manager
// ---------------------------------------------------------------------------

/// The workspaces known to the application: those stored in the database,
/// followed by those declared in the configuration.
pub struct WorkspaceManager {
    workspaces: Vec<WorkspaceInfo>,
    config_workspaces: Option<Vec<(String, WorkspaceConfig)>>,
}

impl WorkspaceManager {
    /// The workspaces, in order.
    pub closed spec fn spec_workspaces(&self) -> Seq<WorkspaceInfoView> {
        workspace_views(self.workspaces@)
    }

    /// The declarations loaded from the configuration, if any.
    pub closed spec fn spec_config(&self) -> Option<Seq<(Seq<char>, WorkspaceConfigView)>> {
        match self.config_workspaces {
            Some(c) => Some(named_config_views(c@)),
            None => None,
        }
    }

    /// Loaded declarations can be numbered.
    pub open spec fn wf(&self) -> bool {
        self.spec_config() matches Some(c) ==> config_fits(c)
    }

    /// The declared workspaces that follow the stored ones.
    pub open spec fn spec_declared(&self) -> Seq<WorkspaceInfoView> {
        match self.spec_config() {
            Some(c) => declared_workspaces(c, -1),
            None => seq![],
        }
    }

    /// A manager with no workspaces and no declarations.
    pub fn new() -> (m: WorkspaceManager)
        ensures
            m.spec_workspaces() == Seq::<WorkspaceInfoView>::empty(),
            m.spec_config() is None,
            m.wf(),
    {
        let m = WorkspaceManager { workspaces: Vec::new(), config_workspaces: None };
        assert(m.spec_workspaces() =~= Seq::<WorkspaceInfoView>::empty());
        m
    }

    /// Takes in the rows just read from the database: the workspaces become
    /// the stored ones (items of unknown type left out) followed by the
    /// declared ones.
    pub fn refresh(&mut self, rows: &Vec<WorkspaceRow>)
        requires
            old(self).wf(),
        ensures
            final(self).wf(),
            final(self).spec_config() == old(self).spec_config(),
            final(self).spec_workspaces() == stored_workspaces(rows@) + old(self).spec_declared(),
    {
        let mut ws: Vec<WorkspaceInfo> = Vec::new();
        let mut i: usize = 0;
        while i < rows.len()
            invariant
                i <= rows@.len(),
                workspace_views(ws@) == stored_workspaces(rows@.take(i as int)),
            decreases rows@.len() - i,
        {
            let ghost prev = ws@;
            ws.push(workspace_from_row(&rows[i]));
            assert(rows@.take(i + 1) == rows@.take(i as int).push(rows@[i as int]));
            assert(stored_workspaces(rows@.take(i + 1)) =~= stored_workspaces(rows@.take(i as int)).push(ws@.last()@));
            assert(workspace_views(ws@) =~= workspace_views(prev).push(ws@.last()@));
            i = i + 1;
        }
        assert(rows@.take(rows@.len() as int) == rows@);
        match &self.config_workspaces {
            Some(c) => {
                workspaces_from_config(&mut ws, c);
            },
            None => {
                assert(workspace_views(ws@) =~= workspace_views(ws@) + Seq::<
                    WorkspaceInfoView,
                >::empty());
            },
        }
        self.workspaces = ws;
    }

    /// Keeps the declarations and appends their workspaces.
    pub fn load_config_workspaces(&mut self, config_workspaces: &Vec<(String, WorkspaceConfig)>)
        requires
            config_fits(named_config_views(config_workspaces@)),
        ensures
            final(self).wf(),
            final(self).spec_config() == Some(named_config_views(config_workspaces@)),
            final(self).spec_workspaces() == old(self).spec_workspaces() + declared_workspaces(
                named_config_views(config_workspaces@),
                -1,
            ),
    {
        self.config_workspaces = Some(copy_named_configs(config_workspaces));
        workspaces_from_config(&mut self.workspaces, config_workspaces);
    }

    /// The workspaces, in order.
    pub fn get_workspaces(&self) -> (v: Vec<WorkspaceInfo>)
        ensures
            workspace_views(v@) == self.spec_workspaces(),
    {
        copy_workspaces(&self.workspaces)
    }
}

/// Only workspaces and items stored in the database have non-negative ids;
/// declared ones cannot be changed or deleted.
pub fn is_stored(id: i64) -> (b: bool)
    ensures
        b == (id >= 0),
{
    id >= 0
}


/// The workspace that an item added from a list goes to: the first one.
pub fn first_workspace_id(ws: &Vec<WorkspaceInfo>) -> (r: Option<i64>)
    ensures
        r == if ws@.len() > 0 {
            Some(ws@[0].id)
        } else {
            None
        },
{
    if ws.len() > 0 {
        Some(ws[0].id)
    } else {
        None
    }
}

} // verus!
