//! The dispatcher: the rules by which requests are routed to modules,
//! replies and events to connections, and subscriptions are kept.
//!
//! The dispatcher here is a state and three transitions, one for each kind
//! of input: a new connection, a request from a connection, a reply from a
//! module.  Each transition returns the messages to send; sending them is
//! left to the caller.

use vstd::prelude::*;
use crate::errors::{error_reply, Error, ErrorKind, ErrorView};
use crate::json::{member_views_of, Json, JsonView};
use crate::proto::{msg_views_of, lemma_init_updates_view, IncomingMsg, Msg, MsgView,
    protocol_error};
use crate::sets::{distinct, distinct_names, find_hid, find_name, insert_hid, lemma_contains,
    lemma_name_position, lemma_position, lemma_with, lemma_without, name_position, names_of,
    position, remove_hid, with, without};

verus! {

/// The id of a connection: a number other than zero, given to one
/// connection only.
pub type HandlerId = u64;

/// Something for the caller to send.
#[derive(Debug, PartialEq)]
pub enum Action {
    /// Send `msg` to the connection `hid`.
    Reply { hid: HandlerId, msg: Msg },
    /// Send the request `req`, which came from `hid`, on to `module`.
    Forward { module: String, hid: HandlerId, req: IncomingMsg },
}

/// The mathematical value of an [`Action`].
pub enum ActionView {
    Reply { hid: u64, msg: MsgView },
    Forward { module: Seq<char>, hid: u64, line: Seq<char>, msg: MsgView },
}

impl View for Action {
    type V = ActionView;

    open spec fn view(&self) -> ActionView {
        match self {
            Action::Reply { hid, msg } => ActionView::Reply { hid: *hid, msg: msg@ },
            Action::Forward { module, hid, req } => ActionView::Forward {
                module: module@,
                hid: *hid,
                line: req.0@,
                msg: req.1@,
            },
        }
    }
}

/// The views of a list of actions, item by item.
pub open spec fn actions_of(items: Seq<Action>) -> Seq<ActionView> {
    Seq::new(items.len(), |i: int| items[i]@)
}

/// The first place at or after `from` where an entry has the given id, or
/// the number of entries where none has.
pub open spec fn entry_position(entries: Seq<(Seq<char>, JsonView)>, id: Seq<char>, from: int) -> int
    decreases entries.len() - from,
{
    if 0 <= from < entries.len() {
        if entries[from].0 == id {
            from
        } else {
            entry_position(entries, id, from + 1)
        }
    } else {
        entries.len() as int
    }
}

/// The entries after the structure of the module `id` was merged in: it
/// takes the place of the entry with that id, or comes at the end.
pub open spec fn merged(
    entries: Seq<(Seq<char>, JsonView)>,
    id: Seq<char>,
    structure: JsonView,
) -> Seq<(Seq<char>, JsonView)> {
    let at = entry_position(entries, id, 0);
    if at < entries.len() {
        entries.update(at, (id, structure))
    } else {
        entries.push((id, structure))
    }
}

/// The state of the dispatcher.
pub struct DispatcherView {
    /// The description of the node.
    pub description: Seq<char>,
    /// The equipment id of the node.
    pub equipment_id: Seq<char>,
    /// The descriptive data of the modules that sent some, by module name.
    pub structures: Seq<(Seq<char>, JsonView)>,
    /// The connections that have a reply channel.
    pub handlers: Seq<u64>,
    /// The names of the modules.
    pub modules: Seq<Seq<char>>,
    /// For each module, in the order of `modules`, the connections that are
    /// activated on it.
    pub active: Seq<Seq<u64>>,
    /// How many modules still have to answer the global activation that is
    /// in progress; zero where none is.
    pub remaining: nat,
}

impl DispatcherView {
    /// The invariant of the dispatcher: no connection and no module is
    /// listed twice, every module has its subscription set, every
    /// subscriber has a reply channel, and no more answers are awaited
    /// than there are modules.
    pub open spec fn wf(self) -> bool {
        &&& distinct(self.handlers)
        &&& distinct_names(self.modules)
        &&& self.active.len() == self.modules.len()
        &&& forall|i: int| 0 <= i < self.active.len() ==> distinct(#[trigger] self.active[i])
        &&& forall|i: int, h: u64|
            0 <= i < self.active.len() && (#[trigger] self.active[i].contains(h))
                ==> self.handlers.contains(h)
        &&& self.remaining <= self.modules.len()
    }

    /// The place of a module, or the number of modules where there is none
    /// of that name.
    pub open spec fn module_index(self, name: Seq<char>) -> int {
        name_position(self.modules, name, 0)
    }

    /// Whether the connection is activated on the module.
    pub open spec fn subscribed(self, name: Seq<char>, hid: u64) -> bool {
        self.module_index(name) < self.modules.len() && self.active[self.module_index(
            name,
        )].contains(hid)
    }

    /// A message for a connection: sent if the connection has a reply
    /// channel, dropped silently otherwise.
    pub open spec fn reply_to(self, hid: u64, msg: MsgView) -> Seq<ActionView> {
        if self.handlers.contains(hid) {
            seq![ActionView::Reply { hid, msg }]
        } else {
            seq![]
        }
    }

    /// A request for a module: sent on if the module exists, answered with
    /// `NoSuchModule` otherwise.
    pub open spec fn route(self, module: Seq<char>, hid: u64, line: Seq<char>, msg: MsgView) -> Seq<
        ActionView,
    > {
        if self.module_index(module) < self.modules.len() {
            seq![ActionView::Forward { module, hid, line, msg }]
        } else {
            self.reply_to(
                hid,
                error_reply(
                    ErrorView { kind: ErrorKind::NoSuchModule, message: Seq::empty() },
                    line,
                ),
            )
        }
    }

    /// The descriptive data of the node.
    pub open spec fn descriptive(self) -> JsonView {
        JsonView::Object(
            seq![
                ("description"@, JsonView::Str(self.description)),
                ("equipment_id"@, JsonView::Str(self.equipment_id)),
                ("firmware"@, JsonView::Str("secop-rs"@)),
                ("modules"@, JsonView::Object(self.structures)),
            ],
        )
    }

    /// The subscription sets after the connection left all of them.
    pub open spec fn dropped_everywhere(self, hid: u64) -> Seq<Seq<u64>> {
        Seq::new(self.active.len(), |i: int| without(self.active[i], hid))
    }

    /// The subscription sets after the connection joined all of them.
    pub open spec fn added_everywhere(self, hid: u64) -> Seq<Seq<u64>> {
        Seq::new(self.active.len(), |i: int| with(self.active[i], hid))
    }

    /// The state after a connection was registered.
    pub open spec fn connect(self, hid: u64) -> DispatcherView {
        DispatcherView { handlers: with(self.handlers, hid), ..self }
    }

    /// The state after a module was added, and whether it was: a name that
    /// is there already is not added again.
    pub open spec fn add_module(self, name: Seq<char>) -> (DispatcherView, bool) {
        if self.module_index(name) < self.modules.len() {
            (self, false)
        } else {
            (
                DispatcherView {
                    modules: self.modules.push(name),
                    active: self.active.push(Seq::empty()),
                    ..self
                },
                true,
            )
        }
    }

    /// The state after a request from a connection, and what is to be sent.
    pub open spec fn request(self, hid: u64, line: Seq<char>, msg: MsgView) -> (
        DispatcherView,
        Seq<ActionView>,
    ) {
        match msg {
            MsgView::Do { module, .. } => (self, self.route(module, hid, line, msg)),
            MsgView::Change { module, .. } => (self, self.route(module, hid, line, msg)),
            MsgView::Read { module, .. } => (self, self.route(module, hid, line, msg)),
            MsgView::Activate { module } => {
                if module.len() > 0 {
                    (self, self.route(module, hid, line, msg))
                } else if self.remaining > 0 {
                    (
                        self,
                        self.reply_to(
                            hid,
                            error_reply(protocol_error("already activating"@), line),
                        ),
                    )
                } else {
                    (
                        DispatcherView { remaining: self.modules.len(), ..self },
                        Seq::new(
                            self.modules.len(),
                            |i: int|
                                ActionView::Forward { module: self.modules[i], hid, line, msg },
                        ),
                    )
                }
            },
            MsgView::Deactivate { module } => {
                if module.len() > 0 {
                    let at = self.module_index(module);
                    if at < self.modules.len() {
                        (
                            DispatcherView {
                                active: self.active.update(at, without(self.active[at], hid)),
                                ..self
                            },
                            self.reply_to(hid, MsgView::Inactive { module }),
                        )
                    } else {
                        (
                            self,
                            self.reply_to(
                                hid,
                                error_reply(
                                    ErrorView {
                                        kind: ErrorKind::NoSuchModule,
                                        message: Seq::empty(),
                                    },
                                    line,
                                ),
                            ),
                        )
                    }
                } else {
                    (
                        DispatcherView { active: self.dropped_everywhere(hid), ..self },
                        self.reply_to(hid, MsgView::Inactive { module }),
                    )
                }
            },
            MsgView::Describe => (
                self,
                self.reply_to(
                    hid,
                    MsgView::Describing { id: "."@, structure: self.descriptive() },
                ),
            ),
            MsgView::Quit => (
                DispatcherView {
                    handlers: without(self.handlers, hid),
                    active: self.dropped_everywhere(hid),
                    ..self
                },
                seq![],
            ),
            _ => (self, seq![]),
        }
    }

    /// The updates of an activation, each as a message for the connection.
    pub open spec fn forwarded(self, hid: u64, updates: Seq<MsgView>) -> Seq<ActionView> {
        if self.handlers.contains(hid) {
            Seq::new(updates.len(), |k: int| ActionView::Reply { hid, msg: updates[k] })
        } else {
            seq![]
        }
    }

    /// An event, as a message for each subscriber of its module.
    pub open spec fn broadcast(self, module: Seq<char>, msg: MsgView) -> Seq<ActionView> {
        let at = self.module_index(module);
        if at < self.modules.len() {
            Seq::new(
                self.active[at].len(),
                |k: int| ActionView::Reply { hid: self.active[at][k], msg },
            )
        } else {
            seq![]
        }
    }

    /// The state after the initial updates of one module arrived for a
    /// connection, and what is to be sent.
    pub open spec fn init_updates(self, hid: u64, module: Seq<char>, updates: Seq<MsgView>) -> (
        DispatcherView,
        Seq<ActionView>,
    ) {
        let forwarded = self.forwarded(hid, updates);
        let registered = self.handlers.contains(hid);
        if module.len() > 0 {
            let at = self.module_index(module);
            let next = if at < self.modules.len() && registered {
                DispatcherView { active: self.active.update(at, with(self.active[at], hid)), ..self }
            } else {
                self
            };
            (next, forwarded + self.reply_to(hid, MsgView::Active { module }))
        } else if self.remaining == 0 {
            (self, forwarded)
        } else if self.remaining == 1 {
            (
                DispatcherView {
                    remaining: 0,
                    active: if registered {
                        self.added_everywhere(hid)
                    } else {
                        self.active
                    },
                    ..self
                },
                forwarded + self.reply_to(hid, MsgView::Active { module }),
            )
        } else {
            (DispatcherView { remaining: (self.remaining - 1) as nat, ..self }, forwarded)
        }
    }

    /// The state after a message from a module, and what is to be sent.
    /// `hid` is the connection that the message answers, or nothing for an
    /// event.
    pub open spec fn reply(self, hid: Option<u64>, msg: MsgView) -> (
        DispatcherView,
        Seq<ActionView>,
    ) {
        match hid {
            None => match msg {
                MsgView::Describing { id, structure } => (
                    DispatcherView { structures: merged(self.structures, id, structure), ..self },
                    seq![],
                ),
                MsgView::Update { module, .. } => (self, self.broadcast(module, msg)),
                _ => (self, seq![]),
            },
            Some(h) => match msg {
                MsgView::InitUpdates { module, updates } => self.init_updates(h, module, updates),
                _ => (self, self.reply_to(h, msg)),
            },
        }
    }
}


/// The subscription sets stay well formed when a connection leaves all of
/// them, also where it loses its reply channel at the same time.
proof fn lemma_dropped(pre: DispatcherView, hid: u64)
    requires
        pre.wf(),
    ensures
        (DispatcherView { active: pre.dropped_everywhere(hid), ..pre }).wf(),
        (DispatcherView {
            handlers: without(pre.handlers, hid),
            active: pre.dropped_everywhere(hid),
            ..pre
        }).wf(),
{
    let dropped = pre.dropped_everywhere(hid);
    lemma_without(pre.handlers, hid);
    assert forall|i: int| 0 <= i < dropped.len() implies distinct(#[trigger] dropped[i]) by {
        lemma_without(pre.active[i], hid);
    }
    assert forall|i: int, h: u64|
        0 <= i < dropped.len() && (#[trigger] dropped[i].contains(h)) implies pre.handlers.contains(
        h,
    ) && without(pre.handlers, hid).contains(h) by {
        lemma_without(pre.active[i], hid);
        assert(pre.active[i].contains(h));
    }
}

/// The subscription sets stay well formed when a connection leaves one of
/// them.
proof fn lemma_dropped_at(pre: DispatcherView, at: int, hid: u64)
    requires
        pre.wf(),
        0 <= at < pre.active.len(),
    ensures
        (DispatcherView { active: pre.active.update(at, without(pre.active[at], hid)), ..pre }).wf(),
{
    let next = pre.active.update(at, without(pre.active[at], hid));
    lemma_without(pre.active[at], hid);
    assert forall|i: int| 0 <= i < next.len() implies distinct(#[trigger] next[i]) by {
        if i != at {
            assert(next[i] == pre.active[i]);
        }
    }
    assert forall|i: int, h: u64|
        0 <= i < next.len() && (#[trigger] next[i].contains(h)) implies pre.handlers.contains(
        h,
    ) by {
        if i != at {
            assert(next[i] == pre.active[i]);
        }
        assert(pre.active[i].contains(h));
    }
}

/// The subscription sets stay well formed when a connection with a reply
/// channel joins one of them.
proof fn lemma_added_at(pre: DispatcherView, at: int, hid: u64)
    requires
        pre.wf(),
        0 <= at < pre.active.len(),
        pre.handlers.contains(hid),
    ensures
        (DispatcherView { active: pre.active.update(at, with(pre.active[at], hid)), ..pre }).wf(),
{
    let next = pre.active.update(at, with(pre.active[at], hid));
    lemma_with(pre.active[at], hid);
    assert forall|i: int| 0 <= i < next.len() implies distinct(#[trigger] next[i]) by {
        if i != at {
            assert(next[i] == pre.active[i]);
        }
    }
    assert forall|i: int, h: u64|
        0 <= i < next.len() && (#[trigger] next[i].contains(h)) implies pre.handlers.contains(
        h,
    ) by {
        if i != at {
            assert(next[i] == pre.active[i]);
            assert(pre.active[i].contains(h));
        } else if h != hid {
            assert(pre.active[i].contains(h));
        }
    }
}

/// The subscription sets stay well formed when a connection with a reply
/// channel joins all of them.
proof fn lemma_added(pre: DispatcherView, hid: u64, remaining: nat)
    requires
        pre.wf(),
        pre.handlers.contains(hid),
        remaining <= pre.modules.len(),
    ensures
        (DispatcherView { remaining, active: pre.added_everywhere(hid), ..pre }).wf(),
{
    let added = pre.added_everywhere(hid);
    assert forall|i: int| 0 <= i < added.len() implies distinct(#[trigger] added[i]) by {
        lemma_with(pre.active[i], hid);
    }
    assert forall|i: int, h: u64|
        0 <= i < added.len() && (#[trigger] added[i].contains(h)) implies pre.handlers.contains(
        h,
    ) by {
        lemma_with(pre.active[i], hid);
        if h != hid {
            assert(pre.active[i].contains(h));
        }
    }
}

/// Registering a connection keeps the invariant.
pub proof fn lemma_connect_wf(pre: DispatcherView, hid: u64)
    requires
        pre.wf(),
    ensures
        pre.connect(hid).wf(),
{
    lemma_with(pre.handlers, hid);
    let next = pre.connect(hid);
    assert forall|i: int, h: u64|
        0 <= i < next.active.len() && (#[trigger] next.active[i].contains(h))
        implies next.handlers.contains(h) by {
        assert(pre.active[i].contains(h));
    }
}

/// Adding a module keeps the invariant.
pub proof fn lemma_add_module_wf(pre: DispatcherView, name: Seq<char>)
    requires
        pre.wf(),
    ensures
        pre.add_module(name).0.wf(),
{
    lemma_name_position(pre.modules, name, 0);
    let next = pre.add_module(name).0;
    if pre.module_index(name) >= pre.modules.len() {
        assert forall|i: int| 0 <= i < next.active.len() implies distinct(
            #[trigger] next.active[i],
        ) by {
            if i < pre.active.len() {
                assert(next.active[i] == pre.active[i]);
            }
        }
        assert forall|i: int, h: u64|
            0 <= i < next.active.len() && (#[trigger] next.active[i].contains(h))
            implies next.handlers.contains(h) by {
            if i < pre.active.len() {
                assert(next.active[i] == pre.active[i]);
                assert(pre.active[i].contains(h));
            } else {
                let k = choose|k: int| 0 <= k < next.active[i].len() && next.active[i][k] == h;
            }
        }
        assert forall|i: int, j: int| 0 <= i < j < next.modules.len() implies next.modules[i]
            != next.modules[j] by {
            if j == pre.modules.len() {
                assert(next.modules[i] == pre.modules[i]);
            } else {
                assert(next.modules[i] == pre.modules[i]);
                assert(next.modules[j] == pre.modules[j]);
            }
        }
    }
}

/// Every request keeps the invariant.
pub proof fn lemma_request_wf(pre: DispatcherView, hid: u64, line: Seq<char>, msg: MsgView)
    requires
        pre.wf(),
    ensures
        pre.request(hid, line, msg).0.wf(),
{
    match msg {
        MsgView::Deactivate { module } => {
            lemma_name_position(pre.modules, module, 0);
            if module.len() > 0 {
                let at = pre.module_index(module);
                if at < pre.modules.len() {
                    lemma_dropped_at(pre, at, hid);
                }
            } else {
                lemma_dropped(pre, hid);
            }
        },
        MsgView::Quit => {
            lemma_dropped(pre, hid);
        },
        _ => {},
    }
}

/// Every message from a module keeps the invariant.
pub proof fn lemma_reply_wf(pre: DispatcherView, hid: Option<u64>, msg: MsgView)
    requires
        pre.wf(),
    ensures
        pre.reply(hid, msg).0.wf(),
{
    match hid {
        Some(h) => match msg {
            MsgView::InitUpdates { module, updates } => {
                lemma_name_position(pre.modules, module, 0);
                if module.len() > 0 {
                    let at = pre.module_index(module);
                    if at < pre.modules.len() && pre.handlers.contains(h) {
                        lemma_added_at(pre, at, h);
                    }
                } else if pre.remaining == 1 {
                    if pre.handlers.contains(h) {
                        lemma_added(pre, h, 0);
                    }
                }
            },
            _ => {},
        },
        None => {},
    }
}


/// The subscription sets of a list of vectors.
pub open spec fn sets_of(v: Seq<Vec<u64>>) -> Seq<Seq<u64>> {
    Seq::new(v.len(), |i: int| v[i]@)
}

fn drop_at(active: &mut Vec<Vec<u64>>, at: usize, hid: u64)
    requires
        at < old(active)@.len(),
    ensures
        final(active)@.len() == old(active)@.len(),
        sets_of(final(active)@) == sets_of(old(active)@).update(
            at as int,
            without(old(active)@[at as int]@, hid),
        ),
{
    let ghost before = sets_of(active@);
    let mut set = active.remove(at);
    remove_hid(&mut set, hid);
    active.insert(at, set);
    assert(sets_of(active@) =~= before.update(at as int, without(before[at as int], hid)));
}

fn add_at(active: &mut Vec<Vec<u64>>, at: usize, hid: u64)
    requires
        at < old(active)@.len(),
    ensures
        final(active)@.len() == old(active)@.len(),
        sets_of(final(active)@) == sets_of(old(active)@).update(
            at as int,
            with(old(active)@[at as int]@, hid),
        ),
{
    let ghost before = sets_of(active@);
    let mut set = active.remove(at);
    insert_hid(&mut set, hid);
    active.insert(at, set);
    assert(sets_of(active@) =~= before.update(at as int, with(before[at as int], hid)));
}

fn drop_everywhere(active: &mut Vec<Vec<u64>>, hid: u64)
    ensures
        sets_of(final(active)@) == Seq::new(
            old(active)@.len(),
            |i: int| without(old(active)@[i]@, hid),
        ),
{
    let ghost before = sets_of(active@);
    let n: usize = active.len();
    let mut i: usize = 0;
    while i < n
        invariant
            i <= n,
            n == before.len(),
            active@.len() == n,
            forall|k: int| 0 <= k < i ==> (#[trigger] sets_of(active@)[k]) == without(before[k], hid),
            forall|k: int| i <= k < n ==> (#[trigger] sets_of(active@)[k]) == before[k],
        decreases n - i,
    {
        let ghost mid = sets_of(active@);
        assert(mid[i as int] == before[i as int]);
        drop_at(active, i, hid);
        assert(forall|k: int| 0 <= k < n && k != i ==> sets_of(active@)[k] == mid[k]);
        i += 1;
    }
    assert(sets_of(active@) =~= Seq::new(before.len(), |i: int| without(before[i], hid)));
}

fn add_everywhere(active: &mut Vec<Vec<u64>>, hid: u64)
    ensures
        sets_of(final(active)@) == Seq::new(
            old(active)@.len(),
            |i: int| with(old(active)@[i]@, hid),
        ),
{
    let ghost before = sets_of(active@);
    let n: usize = active.len();
    let mut i: usize = 0;
    while i < n
        invariant
            i <= n,
            n == before.len(),
            active@.len() == n,
            forall|k: int| 0 <= k < i ==> (#[trigger] sets_of(active@)[k]) == with(before[k], hid),
            forall|k: int| i <= k < n ==> (#[trigger] sets_of(active@)[k]) == before[k],
        decreases n - i,
    {
        let ghost mid = sets_of(active@);
        assert(mid[i as int] == before[i as int]);
        add_at(active, i, hid);
        assert(forall|k: int| 0 <= k < n && k != i ==> sets_of(active@)[k] == mid[k]);
        i += 1;
    }
    assert(sets_of(active@) =~= Seq::new(before.len(), |i: int| with(before[i], hid)));
}

fn find_entry(entries: &Vec<(String, Json)>, id: &String) -> (r: usize)
    ensures
        r == entry_position(member_views_of(entries@), id@, 0),
        r <= entries@.len(),
{
    let mut i: usize = 0;
    while i < entries.len() && !(entries[i].0 == *id)
        invariant
            i <= entries@.len(),
            entry_position(member_views_of(entries@), id@, 0) == entry_position(
                member_views_of(entries@),
                id@,
                i as int,
            ),
        decreases entries@.len() - i,
    {
        i += 1;
    }
    proof {
        lemma_entry_position(member_views_of(entries@), id@, 0);
    }
    i
}

proof fn lemma_entry_position(entries: Seq<(Seq<char>, JsonView)>, id: Seq<char>, from: int)
    requires
        0 <= from <= entries.len(),
    ensures
        from <= entry_position(entries, id, from) <= entries.len(),
    decreases entries.len() - from,
{
    if from < entries.len() && entries[from].0 != id {
        lemma_entry_position(entries, id, from + 1);
    }
}

fn clone_entries(entries: &Vec<(String, Json)>) -> (r: Vec<(String, Json)>)
    ensures
        member_views_of(r@) == member_views_of(entries@),
{
    let mut out: Vec<(String, Json)> = Vec::new();
    let mut i: usize = 0;
    while i < entries.len()
        invariant
            i <= entries@.len(),
            out@.len() == i,
            forall|k: int|
                0 <= k < i ==> out@[k].0@ == entries@[k].0@ && out@[k].1@ == entries@[k].1@,
        decreases entries@.len() - i,
    {
        out.push((entries[i].0.clone(), entries[i].1.clone()));
        i += 1;
    }
    assert(member_views_of(out@) =~= member_views_of(entries@));
    out
}

/// The dispatcher's state.
pub struct Dispatcher {
    description: String,
    equipment_id: String,
    structures: Vec<(String, Json)>,
    handlers: Vec<u64>,
    modules: Vec<String>,
    active: Vec<Vec<u64>>,
    remaining: usize,
}

impl View for Dispatcher {
    type V = DispatcherView;

    closed spec fn view(&self) -> DispatcherView {
        DispatcherView {
            description: self.description@,
            equipment_id: self.equipment_id@,
            structures: member_views_of(self.structures@),
            handlers: self.handlers@,
            modules: names_of(self.modules@),
            active: sets_of(self.active@),
            remaining: self.remaining as nat,
        }
    }
}

impl Dispatcher {
    /// A dispatcher for a node without modules and without connections.
    pub fn new(description: String, equipment_id: String) -> (r: Dispatcher)
        ensures
            r@ == (DispatcherView {
                description: description@,
                equipment_id: equipment_id@,
                structures: Seq::empty(),
                handlers: Seq::empty(),
                modules: Seq::empty(),
                active: Seq::empty(),
                remaining: 0,
            }),
            r@.wf(),
    {
        let r = Dispatcher {
            description,
            equipment_id,
            structures: Vec::new(),
            handlers: Vec::new(),
            modules: Vec::new(),
            active: Vec::new(),
            remaining: 0,
        };
        assert(r@.structures =~= Seq::empty());
        assert(r@.modules =~= Seq::empty());
        assert(r@.active =~= Seq::empty());
        r
    }

    /// Adds a module with an empty subscription set.  Returns whether it
    /// was added: a name that is there already is not added again.
    pub fn add_module(&mut self, name: String) -> (r: bool)
        requires
            old(self)@.wf(),
        ensures
            (final(self)@, r) == old(self)@.add_module(name@),
            final(self)@.wf(),
    {
        proof {
            lemma_add_module_wf(self@, name@);
        }
        if find_name(&self.modules, &name) < self.modules.len() {
            false
        } else {
            let ghost before = self@;
            self.modules.push(name);
            self.active.push(Vec::new());
            assert(self@.modules =~= before.modules.push(name@));
            assert(self@.active =~= before.active.push(Seq::empty()));
            true
        }
    }

    /// Registers a connection, which from now on gets the messages that
    /// are for it.
    pub fn connect(&mut self, hid: HandlerId)
        requires
            old(self)@.wf(),
        ensures
            final(self)@ == old(self)@.connect(hid),
            final(self)@.wf(),
    {
        proof {
            lemma_connect_wf(self@, hid);
        }
        insert_hid(&mut self.handlers, hid);
    }

    /// Whether the connection has a reply channel.
    pub fn is_registered(&self, hid: HandlerId) -> (r: bool)
        ensures
            r == self@.handlers.contains(hid),
    {
        find_hid(&self.handlers, hid) < self.handlers.len()
    }

    /// Whether the connection is activated on the module.
    pub fn is_subscribed(&self, module: &String, hid: HandlerId) -> (r: bool)
        requires
            self@.wf(),
        ensures
            r == self@.subscribed(module@, hid),
    {
        let at: usize = find_name(&self.modules, module);
        if at < self.modules.len() {
            assert(self@.active[at as int] == self.active@[at as int]@);
            find_hid(&self.active[at], hid) < self.active[at].len()
        } else {
            false
        }
    }

    /// Whether a global activation is in progress.
    pub fn is_activating(&self) -> (r: bool)
        ensures
            r == (self@.remaining > 0),
    {
        self.remaining > 0
    }

    /// The descriptive data of the node.
    pub fn descriptive(&self) -> (r: Json)
        ensures
            r@ == self@.descriptive(),
    {
        let mut members: Vec<(String, Json)> = Vec::new();
        members.push(("description".to_string(), Json::Str(self.description.clone())));
        members.push(("equipment_id".to_string(), Json::Str(self.equipment_id.clone())));
        members.push(("firmware".to_string(), Json::text("secop-rs")));
        members.push(("modules".to_string(), Json::object(clone_entries(&self.structures))));
        let r = Json::object(members);
        assert(r@->Object_0 =~= self@.descriptive()->Object_0);
        r
    }

    fn reply_to(&self, hid: HandlerId, msg: Msg) -> (r: Vec<Action>)
        ensures
            actions_of(r@) == self@.reply_to(hid, msg@),
    {
        let mut out: Vec<Action> = Vec::new();
        if find_hid(&self.handlers, hid) < self.handlers.len() {
            out.push(Action::Reply { hid, msg });
        }
        assert(actions_of(out@) =~= self@.reply_to(hid, msg@));
        out
    }

    fn route(&self, hid: HandlerId, module: &String, req: IncomingMsg) -> (r: Vec<Action>)
        ensures
            actions_of(r@) == self@.route(module@, hid, req.0@, req.1@),
    {
        if find_name(&self.modules, module) < self.modules.len() {
            let mut out: Vec<Action> = Vec::new();
            out.push(Action::Forward { module: module.clone(), hid, req });
            assert(actions_of(out@) =~= self@.route(module@, hid, req.0@, req.1@));
            out
        } else {
            self.reply_to(hid, Error::no_module().into_msg(req.0))
        }
    }

    fn forward_to_all(&self, hid: HandlerId, req: &IncomingMsg) -> (r: Vec<Action>)
        ensures
            actions_of(r@) == Seq::new(
                self@.modules.len(),
                |i: int|
                    ActionView::Forward {
                        module: self@.modules[i],
                        hid,
                        line: req.0@,
                        msg: req.1@,
                    },
            ),
    {
        let mut out: Vec<Action> = Vec::new();
        let mut i: usize = 0;
        while i < self.modules.len()
            invariant
                i <= self.modules@.len(),
                out@.len() == i,
                forall|k: int|
                    0 <= k < i ==> (#[trigger] out@[k])@ == (ActionView::Forward {
                        module: self.modules@[k]@,
                        hid,
                        line: req.0@,
                        msg: req.1@,
                    }),
            decreases self.modules@.len() - i,
        {
            out.push(Action::Forward { module: self.modules[i].clone(), hid, req: req.clone() });
            i += 1;
        }
        assert(actions_of(out@) =~= Seq::new(
            self@.modules.len(),
            |i: int|
                ActionView::Forward { module: self@.modules[i], hid, line: req.0@, msg: req.1@ },
        ));
        out
    }

    /// Handles a request that came from the connection `hid` and returns
    /// what is to be sent.
    pub fn request(&mut self, hid: HandlerId, req: IncomingMsg) -> (r: Vec<Action>)
        requires
            old(self)@.wf(),
        ensures
            (final(self)@, actions_of(r@)) == old(self)@.request(hid, req.0@, req.1@),
            final(self)@.wf(),
    {
        proof {
            lemma_request_wf(self@, hid, req.0@, req.1@);
        }
        let ghost post = self@.request(hid, req.0@, req.1@);
        let out = match &req.1 {
            Msg::Do { module, .. } => {
                let name = module.clone();
                self.route(hid, &name, req)
            },
            Msg::Change { module, .. } => {
                let name = module.clone();
                self.route(hid, &name, req)
            },
            Msg::Read { module, .. } => {
                let name = module.clone();
                self.route(hid, &name, req)
            },
            Msg::Activate { module } => {
                if !module.as_str().is_empty() {
                    let name = module.clone();
                    self.route(hid, &name, req)
                } else if self.remaining > 0 {
                    self.reply_to(hid, Error::protocol("already activating").into_msg(req.0))
                } else {
                    let out = self.forward_to_all(hid, &req);
                    self.remaining = self.modules.len();
                    assert(module@ =~= Seq::<char>::empty());
                    out
                }
            },
            Msg::Deactivate { module } => {
                let name = module.clone();
                if !name.as_str().is_empty() {
                    let at: usize = find_name(&self.modules, &name);
                    if at < self.modules.len() {
                        drop_at(&mut self.active, at, hid);
                        self.reply_to(hid, Msg::Inactive { module: name })
                    } else {
                        self.reply_to(hid, Error::no_module().into_msg(req.0))
                    }
                } else {
                    drop_everywhere(&mut self.active, hid);
                    self.reply_to(hid, Msg::Inactive { module: name })
                }
            },
            Msg::Describe => {
                let structure = self.descriptive();
                self.reply_to(hid, Msg::Describing { id: ".".to_string(), structure })
            },
            Msg::Quit => {
                remove_hid(&mut self.handlers, hid);
                drop_everywhere(&mut self.active, hid);
                let out: Vec<Action> = Vec::new();
                assert(actions_of(out@) =~= Seq::<ActionView>::empty());
                out
            },
            _ => {
                let out: Vec<Action> = Vec::new();
                assert(actions_of(out@) =~= Seq::<ActionView>::empty());
                out
            },
        };
        proof {
            assert(self@.active =~= post.0.active);
            assert(self@.handlers =~= post.0.handlers);
            assert(self@ == post.0);
            assert(actions_of(out@) == post.1);
        }
        out
    }
}


fn merge_structure(entries: &mut Vec<(String, Json)>, id: String, structure: Json)
    ensures
        member_views_of(final(entries)@) == merged(member_views_of(old(entries)@), id@, structure@),
{
    let ghost before = member_views_of(entries@);
    let at: usize = find_entry(entries, &id);
    if at < entries.len() {
        entries.set(at, (id, structure));
        assert(member_views_of(entries@) =~= before.update(at as int, (id@, structure@)));
    } else {
        entries.push((id, structure));
        assert(member_views_of(entries@) =~= before.push((id@, structure@)));
    }
}

fn join(first: Vec<Action>, second: Vec<Action>) -> (r: Vec<Action>)
    ensures
        actions_of(r@) == actions_of(first@) + actions_of(second@),
{
    let mut out = first;
    let mut rest = second;
    out.append(&mut rest);
    assert(actions_of(out@) =~= actions_of(first@) + actions_of(second@));
    out
}

impl Dispatcher {
    fn forwarded(&self, hid: HandlerId, updates: &Vec<Msg>) -> (r: Vec<Action>)
        ensures
            actions_of(r@) == self@.forwarded(hid, msg_views_of(updates@)),
    {
        let mut out: Vec<Action> = Vec::new();
        if find_hid(&self.handlers, hid) < self.handlers.len() {
            let mut i: usize = 0;
            while i < updates.len()
                invariant
                    i <= updates@.len(),
                    out@.len() == i,
                    forall|k: int|
                        0 <= k < i ==> (#[trigger] out@[k])@ == (ActionView::Reply {
                            hid,
                            msg: updates@[k]@,
                        }),
                decreases updates@.len() - i,
            {
                out.push(Action::Reply { hid, msg: updates[i].clone() });
                i += 1;
            }
        }
        assert(actions_of(out@) =~= self@.forwarded(hid, msg_views_of(updates@)));
        out
    }

    fn broadcast(&self, module: &String, msg: &Msg) -> (r: Vec<Action>)
        requires
            self@.wf(),
        ensures
            actions_of(r@) == self@.broadcast(module@, msg@),
    {
        let mut out: Vec<Action> = Vec::new();
        let at: usize = find_name(&self.modules, module);
        if at < self.modules.len() {
            assert(self@.active[at as int] == self.active@[at as int]@);
            let subscribers = &self.active[at];
            let mut i: usize = 0;
            while i < subscribers.len()
                invariant
                    i <= subscribers@.len(),
                    out@.len() == i,
                    forall|k: int|
                        0 <= k < i ==> (#[trigger] out@[k])@ == (ActionView::Reply {
                            hid: subscribers@[k],
                            msg: msg@,
                        }),
                decreases subscribers@.len() - i,
            {
                out.push(Action::Reply { hid: subscribers[i], msg: msg.clone() });
                i += 1;
            }
        }
        assert(actions_of(out@) =~= self@.broadcast(module@, msg@));
        out
    }

    fn init_updates(&mut self, hid: HandlerId, module: String, updates: Vec<Msg>) -> (r: Vec<
        Action,
    >)
        requires
            old(self)@.wf(),
        ensures
            (final(self)@, actions_of(r@)) == old(self)@.init_updates(
                hid,
                module@,
                msg_views_of(updates@),
            ),
    {
        let ghost post = self@.init_updates(hid, module@, msg_views_of(updates@));
        let forwarded = self.forwarded(hid, &updates);
        let registered = self.is_registered(hid);
        let out = if !module.as_str().is_empty() {
            let at: usize = find_name(&self.modules, &module);
            let ack = self.reply_to(hid, Msg::Active { module });
            if at < self.modules.len() && registered {
                add_at(&mut self.active, at, hid);
            }
            join(forwarded, ack)
        } else if self.remaining == 0 {
            forwarded
        } else if self.remaining == 1 {
            let ack = self.reply_to(hid, Msg::Active { module });
            self.remaining = 0;
            if registered {
                add_everywhere(&mut self.active, hid);
            }
            join(forwarded, ack)
        } else {
            self.remaining = self.remaining - 1;
            forwarded
        };
        proof {
            assert(self@.active =~= post.0.active);
            assert(self@ == post.0);
            assert(actions_of(out@) == post.1);
        }
        out
    }

    /// Handles a message that came from a module and returns what is to be
    /// sent.  `hid` is the connection that the message answers, or nothing
    /// for an event.
    pub fn reply(&mut self, hid: Option<HandlerId>, rep: Msg) -> (r: Vec<Action>)
        requires
            old(self)@.wf(),
        ensures
            (final(self)@, actions_of(r@)) == old(self)@.reply(hid, rep@),
            final(self)@.wf(),
    {
        proof {
            lemma_reply_wf(self@, hid, rep@);
        }
        match hid {
            None => match rep {
                Msg::Describing { id, structure } => {
                    merge_structure(&mut self.structures, id, structure);
                    let out: Vec<Action> = Vec::new();
                    assert(actions_of(out@) =~= Seq::<ActionView>::empty());
                    out
                },
                Msg::Update { module, param, data } => {
                    let name = module.clone();
                    let msg = Msg::Update { module, param, data };
                    self.broadcast(&name, &msg)
                },
                _ => {
                    let out: Vec<Action> = Vec::new();
                    assert(actions_of(out@) =~= Seq::<ActionView>::empty());
                    out
                },
            },
            Some(h) => match rep {
                Msg::InitUpdates { module, updates } => {
                    proof {
                        lemma_init_updates_view(module, updates);
                    }
                    self.init_updates(h, module, updates)
                },
                other => self.reply_to(h, other),
            },
        }
    }
}

/// Activation is acknowledged after its updates: when the initial updates
/// of `module` arrive for a connection with a reply channel, what is sent
/// is each update in order, then exactly one `active`, all to that
/// connection, and the connection is a subscriber of the module afterwards.
pub proof fn lemma_activation_order(
    pre: DispatcherView,
    hid: u64,
    module: Seq<char>,
    updates: Seq<MsgView>,
)
    requires
        pre.wf(),
        module.len() > 0,
        pre.module_index(module) < pre.modules.len(),
        pre.handlers.contains(hid),
    ensures
        ({
            let (post, actions) = pre.reply(Some(hid), MsgView::InitUpdates { module, updates });
            &&& actions.len() == updates.len() + 1
            &&& forall|k: int|
                0 <= k < updates.len() ==> actions[k] == (ActionView::Reply {
                    hid,
                    msg: updates[k],
                })
            &&& actions[updates.len() as int] == (ActionView::Reply {
                hid,
                msg: MsgView::Active { module },
            })
            &&& post.subscribed(module, hid)
        }),
{
    let at = pre.module_index(module);
    lemma_name_position(pre.modules, module, 0);
    assert(distinct(pre.active[at]));
    lemma_with(pre.active[at], hid);
    let post = pre.reply(Some(hid), MsgView::InitUpdates { module, updates }).0;
    assert(post.modules == pre.modules);
    assert(post.active[at] == with(pre.active[at], hid));
}

/// The same for a global activation: the answer of a module that is not
/// the last one sends its updates only; the answer of the last one sends
/// its updates, then exactly one `active`, and the connection is a
/// subscriber of every module afterwards.
pub proof fn lemma_global_activation_order(pre: DispatcherView, hid: u64, updates: Seq<MsgView>)
    requires
        pre.wf(),
        pre.remaining > 0,
        pre.handlers.contains(hid),
    ensures
        ({
            let module = Seq::<char>::empty();
            let (post, actions) = pre.reply(Some(hid), MsgView::InitUpdates { module, updates });
            &&& post.remaining == pre.remaining - 1
            &&& forall|k: int|
                0 <= k < updates.len() ==> actions[k] == (ActionView::Reply {
                    hid,
                    msg: updates[k],
                })
            &&& pre.remaining > 1 ==> actions.len() == updates.len() && post.active == pre.active
            &&& pre.remaining == 1 ==> {
                &&& actions.len() == updates.len() + 1
                &&& actions[updates.len() as int] == (ActionView::Reply {
                    hid,
                    msg: MsgView::Active { module },
                })
                &&& forall|i: int| 0 <= i < post.active.len() ==> post.active[i].contains(hid)
            }
        }),
{
    assert forall|i: int| 0 <= i < pre.active.len() implies with(pre.active[i], hid).contains(
        hid,
    ) by {
        lemma_with(pre.active[i], hid);
    }
}

/// One global activation at a time: while one is in progress, another is
/// refused with a protocol error and changes nothing; when none is in
/// progress, one is sent on to every module and awaits as many answers.
pub proof fn lemma_global_activation_exclusive(pre: DispatcherView, hid: u64, line: Seq<char>)
    requires
        pre.wf(),
    ensures
        ({
            let msg = MsgView::Activate { module: Seq::<char>::empty() };
            let (post, actions) = pre.request(hid, line, msg);
            &&& pre.remaining > 0 ==> post == pre && actions == pre.reply_to(
                hid,
                error_reply(protocol_error("already activating"@), line),
            )
            &&& pre.remaining == 0 ==> {
                &&& post.remaining == pre.modules.len()
                &&& actions.len() == pre.modules.len()
                &&& forall|i: int|
                    0 <= i < pre.modules.len() ==> actions[i] == (ActionView::Forward {
                        module: pre.modules[i],
                        hid,
                        line,
                        msg,
                    })
            }
        }),
{
}

/// Whether an action is a message for the connection `hid`.
pub open spec fn is_for(action: ActionView, hid: u64) -> bool {
    match action {
        ActionView::Reply { hid: to, .. } => to == hid,
        ActionView::Forward { .. } => false,
    }
}

/// Events reach subscribers only: a connection that is not activated on
/// the module of an event gets nothing of it, and an event is sent to each
/// subscriber once.
pub proof fn lemma_unsubscribed_silence(pre: DispatcherView, msg: MsgView, hid: u64)
    requires
        pre.wf(),
    ensures
        ({
            let (post, actions) = pre.reply(None, msg);
            &&& post.active == pre.active
            &&& post.handlers == pre.handlers
            &&& !(msg is Update) ==> actions.len() == 0
            &&& msg is Update && !pre.subscribed(msg->Update_module, hid) ==> forall|k: int|
                0 <= k < actions.len() ==> !is_for(#[trigger] actions[k], hid)
        }),
{
    let (post, actions) = pre.reply(None, msg);
    match msg {
        MsgView::Update { module, .. } => {
            let at = pre.module_index(module);
            if at < pre.modules.len() && !pre.subscribed(module, hid) {
                assert forall|k: int| 0 <= k < actions.len() implies !is_for(
                    #[trigger] actions[k],
                    hid,
                ) by {
                    if pre.active[at][k] == hid {
                        assert(pre.active[at].contains(hid));
                    }
                }
            }
        },
        _ => {},
    }
}

/// A connection becomes a subscriber only by its own activation: no
/// request, and no message from a module that answers another connection
/// or none, makes `hid` a subscriber of a module of which it was none.
pub proof fn lemma_subscription_by_activation(
    pre: DispatcherView,
    hid: u64,
    module: Seq<char>,
    other: u64,
    line: Seq<char>,
    msg: MsgView,
)
    requires
        pre.wf(),
        !pre.subscribed(module, hid),
    ensures
        !pre.request(other, line, msg).0.subscribed(module, hid),
        !pre.reply(None, msg).0.subscribed(module, hid),
        other != hid ==> !pre.reply(Some(other), msg).0.subscribed(module, hid),
{
    let at = pre.module_index(module);
    lemma_name_position(pre.modules, module, 0);
    if at < pre.modules.len() {
        lemma_without(pre.active[at], other);
        lemma_with(pre.active[at], other);
        match msg {
            MsgView::Deactivate { module: m } => {
                lemma_name_position(pre.modules, m, 0);
            },
            MsgView::InitUpdates { module: m, updates } => {
                lemma_name_position(pre.modules, m, 0);
            },
            _ => {},
        }
    }
}

} // verus!
