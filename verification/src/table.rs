//! The table of a module's parameters and commands: the check of the
//! declarations, the lookup by name, the polling lists, the order of
//! initialisation and the descriptive data.

use vstd::prelude::*;
use crate::config::{ModuleConfig, Visibility};
use crate::errors::{Error, ErrorKind, ErrorView};
use crate::json::{member_views_of, views_of, Json, JsonView};
use crate::module::{init_action, init_action_of, CommandDecl, DeclFault, InitAction, ParamDecl};
use crate::text::{lower_text, same_chars, same_text, to_lower};
use crate::types::{new_members, push_member};

verus! {

/// The places below `n` that are kept, in order.
pub open spec fn picked(n: int, keep: spec_fn(int) -> bool) -> Seq<usize>
    decreases n,
{
    if n <= 0 {
        Seq::empty()
    } else if keep(n - 1) {
        picked(n - 1, keep).push((n - 1) as usize)
    } else {
        picked(n - 1, keep)
    }
}

/// What is picked are the places that are kept, each once and in order.
pub proof fn lemma_picked(n: int, keep: spec_fn(int) -> bool)
    requires
        0 <= n <= usize::MAX,
    ensures
        forall|i: int| 0 <= i < picked(n, keep).len() ==> 0 <= (#[trigger] picked(n, keep)[i]) < n
            && keep(picked(n, keep)[i] as int),
        forall|i: int, j: int|
            0 <= i < j < picked(n, keep).len() ==> picked(n, keep)[i] < picked(n, keep)[j],
        forall|k: int| 0 <= k < n && #[trigger] keep(k) ==> picked(n, keep).contains(k as usize),
    decreases n,
{
    if n > 0 {
        lemma_picked(n - 1, keep);
        let before = picked(n - 1, keep);
        let now = picked(n, keep);
        assert forall|k: int| 0 <= k < n && #[trigger] keep(k) implies now.contains(k as usize) by {
            if k < n - 1 {
                let i = choose|i: int| 0 <= i < before.len() && before[i] == k as usize;
                assert(now[i] == k as usize);
            } else {
                assert(now[now.len() - 1] == k as usize);
            }
        }
    }
}

/// A table of declarations.
#[derive(Debug, Clone)]
pub struct ModuleTable {
    pub params: Vec<ParamDecl>,
    pub commands: Vec<CommandDecl>,
}

/// The name of a parameter or command without regard to case, by its
/// place among the parameters followed by the commands.
pub open spec fn lowered_name(params: Seq<ParamDecl>, commands: Seq<CommandDecl>, k: int) -> Seq<
    char,
> {
    if k < params.len() {
        lower_text(params[k].name@)
    } else {
        lower_text(commands[k - params.len()].name@)
    }
}

/// Whether the name at place `k` is, without regard to case, a name before
/// it.
pub open spec fn repeats(params: Seq<ParamDecl>, commands: Seq<CommandDecl>, k: int) -> bool {
    exists|j: int|
        0 <= j < k && #[trigger] lowered_name(params, commands, j) == lowered_name(
            params,
            commands,
            k,
        )
}

/// The rule that the declaration at place `k` breaks, if any: first that
/// names are unique, then, for a command, that its visibility is a known
/// one, and for a parameter the rules of its own.
pub open spec fn fault_at(params: Seq<ParamDecl>, commands: Seq<CommandDecl>, k: int) -> Option<
    DeclFault,
> {
    if repeats(params, commands, k) {
        Some(DeclFault::NameNotUnique)
    } else if k < params.len() {
        params[k].own_fault()
    } else if Visibility::of_word(commands[k - params.len()].visibility@) is None {
        Some(DeclFault::BadVisibility)
    } else {
        None
    }
}

/// The first place at or after `from` where a declaration breaks a rule,
/// or the number of declarations where none does.
pub open spec fn first_fault(params: Seq<ParamDecl>, commands: Seq<CommandDecl>, from: int) -> int
    decreases params.len() + commands.len() - from,
{
    if 0 <= from < params.len() + commands.len() {
        if fault_at(params, commands, from) is Some {
            from
        } else {
            first_fault(params, commands, from + 1)
        }
    } else {
        (params.len() + commands.len()) as int
    }
}

/// The first place at or after `from` where a parameter has the given
/// name, or the number of parameters where none has.
pub open spec fn param_position(params: Seq<ParamDecl>, name: Seq<char>, from: int) -> int
    decreases params.len() - from,
{
    if 0 <= from < params.len() {
        if params[from].name@ == name {
            from
        } else {
            param_position(params, name, from + 1)
        }
    } else {
        params.len() as int
    }
}

/// The first place at or after `from` where a command has the given name,
/// or the number of commands where none has.
pub open spec fn command_position(commands: Seq<CommandDecl>, name: Seq<char>, from: int) -> int
    decreases commands.len() - from,
{
    if 0 <= from < commands.len() {
        if commands[from].name@ == name {
            from
        } else {
            command_position(commands, name, from + 1)
        }
    } else {
        commands.len() as int
    }
}

proof fn lemma_param_position(params: Seq<ParamDecl>, name: Seq<char>, from: int)
    requires
        0 <= from <= params.len(),
    ensures
        from <= param_position(params, name, from) <= params.len(),
    decreases params.len() - from,
{
    if from < params.len() && params[from].name@ != name {
        lemma_param_position(params, name, from + 1);
    }
}

proof fn lemma_command_position(commands: Seq<CommandDecl>, name: Seq<char>, from: int)
    requires
        0 <= from <= commands.len(),
    ensures
        from <= command_position(commands, name, from) <= commands.len(),
    decreases commands.len() - from,
{
    if from < commands.len() && commands[from].name@ != name {
        lemma_command_position(commands, name, from + 1);
    }
}

impl ModuleTable {
    /// The number of declarations.
    pub open spec fn total(&self) -> int {
        (self.params@.len() + self.commands@.len()) as int
    }

    fn lowered(&self, k: usize) -> (r: Vec<char>)
        requires
            k < self.total(),
        ensures
            r@ == lowered_name(self.params@, self.commands@, k as int),
    {
        if k < self.params.len() {
            to_lower(self.params[k].name.as_str())
        } else {
            to_lower(self.commands[k - self.params.len()].name.as_str())
        }
    }

    fn repeats_at(&self, k: usize) -> (r: bool)
        requires
            k < self.total(),
        ensures
            r == repeats(self.params@, self.commands@, k as int),
    {
        let name = self.lowered(k);
        let mut j: usize = 0;
        while j < k
            invariant
                j <= k < self.total(),
                name@ == lowered_name(self.params@, self.commands@, k as int),
                forall|i: int|
                    0 <= i < j ==> #[trigger] lowered_name(self.params@, self.commands@, i)
                        != name@,
            decreases k - j,
        {
            let other = self.lowered(j);
            if same_chars(&other, &name) {
                return true;
            }
            j += 1;
        }
        false
    }

    fn fault(&self, k: usize) -> (r: Option<DeclFault>)
        requires
            k < self.total(),
        ensures
            r == fault_at(self.params@, self.commands@, k as int),
    {
        if self.repeats_at(k) {
            Some(DeclFault::NameNotUnique)
        } else if k < self.params.len() {
            self.params[k].check()
        } else if Visibility::parse(
            self.commands[k - self.params.len()].visibility.as_str(),
        ).is_none() {
            Some(DeclFault::BadVisibility)
        } else {
            None
        }
    }

    /// Checks the declarations, parameters first, then commands, each in
    /// order.  The error gives the place of the first declaration that
    /// breaks a rule, counted through parameters and commands, and the
    /// rule.
    pub fn check(&self) -> (r: Result<(), (usize, DeclFault)>)
        requires
            self.total() <= usize::MAX,
        ensures
            ({
                let at = first_fault(self.params@, self.commands@, 0);
                match r {
                    Ok(_) => at == self.total(),
                    Err((k, fault)) => k == at && at < self.total() && fault_at(
                        self.params@,
                        self.commands@,
                        at,
                    ) == Some(fault),
                }
            }),
    {
        let n: usize = self.params.len() + self.commands.len();
        let mut k: usize = 0;
        while k < n
            invariant
                k <= n,
                n == self.total(),
                first_fault(self.params@, self.commands@, 0) == first_fault(
                    self.params@,
                    self.commands@,
                    k as int,
                ),
            decreases n - k,
        {
            match self.fault(k) {
                Some(fault) => {
                    return Err((k, fault));
                },
                None => {},
            }
            k += 1;
        }
        Ok(())
    }

    /// Finds a parameter by name.
    pub fn find_param(&self, name: &str) -> (r: Result<usize, Error>)
        ensures
            ({
                let at = param_position(self.params@, name@, 0);
                match r {
                    Ok(k) => k == at && at < self.params@.len(),
                    Err(e) => at == self.params@.len() && e@ == (ErrorView {
                        kind: ErrorKind::NoSuchParameter,
                        message: Seq::empty(),
                    }),
                }
            }),
    {
        let mut i: usize = 0;
        while i < self.params.len() && !same_text(self.params[i].name.as_str(), name)
            invariant
                i <= self.params@.len(),
                param_position(self.params@, name@, 0) == param_position(
                    self.params@,
                    name@,
                    i as int,
                ),
            decreases self.params@.len() - i,
        {
            i += 1;
        }
        proof {
            lemma_param_position(self.params@, name@, 0);
        }
        if i < self.params.len() {
            Ok(i)
        } else {
            Err(Error::no_param())
        }
    }

    /// Finds a command by name.
    pub fn find_command(&self, name: &str) -> (r: Result<usize, Error>)
        ensures
            ({
                let at = command_position(self.commands@, name@, 0);
                match r {
                    Ok(k) => k == at && at < self.commands@.len(),
                    Err(e) => at == self.commands@.len() && e@ == (ErrorView {
                        kind: ErrorKind::NoSuchCommand,
                        message: Seq::empty(),
                    }),
                }
            }),
    {
        let mut i: usize = 0;
        while i < self.commands.len() && !same_text(self.commands[i].name.as_str(), name)
            invariant
                i <= self.commands@.len(),
                command_position(self.commands@, name@, 0) == command_position(
                    self.commands@,
                    name@,
                    i as int,
                ),
            decreases self.commands@.len() - i,
        {
            i += 1;
        }
        proof {
            lemma_command_position(self.commands@, name@, 0);
        }
        if i < self.commands.len() {
            Ok(i)
        } else {
            Err(Error::no_command())
        }
    }

    /// The parameters with a positive period that are read on the normal
    /// tick `n`.
    pub open spec fn normal_accelerated(&self, n: nat, busy: bool) -> Seq<usize> {
        picked(
            self.params@.len() as int,
            |k: int| self.params@[k].period() > 0 && self.params@[k].polled_normal(n, busy),
        )
    }

    /// The parameters with a negative period that are read on the normal
    /// tick `n`.
    pub open spec fn normal_steady(&self, n: nat, busy: bool) -> Seq<usize> {
        picked(
            self.params@.len() as int,
            |k: int| self.params@[k].period() < 0 && self.params@[k].polled_normal(n, busy),
        )
    }

    /// The parameters that are read on the busy tick `n`.
    pub open spec fn busy_polled(&self, n: nat, busy: bool) -> Seq<usize> {
        picked(self.params@.len() as int, |k: int| self.params@[k].polled_busy(n, busy))
    }

    /// The parameters to read on the normal tick `n`, given whether the
    /// module is busy: those with a positive period first, which are left
    /// out while the module is busy, then those with a negative period.
    pub fn poll_normal(&self, n: usize, busy: bool) -> (r: Vec<usize>)
        ensures
            r@ == self.normal_accelerated(n as nat, busy) + self.normal_steady(n as nat, busy),
    {
        let ghost first = |k: int|
            self.params@[k].period() > 0 && self.params@[k].polled_normal(n as nat, busy);
        let ghost second = |k: int|
            self.params@[k].period() < 0 && self.params@[k].polled_normal(n as nat, busy);
        let mut out: Vec<usize> = Vec::new();
        let mut i: usize = 0;
        while i < self.params.len()
            invariant
                i <= self.params@.len(),
                out@ == picked(i as int, first),
                first == |k: int|
                    self.params@[k].period() > 0 && self.params@[k].polled_normal(n as nat, busy),
            decreases self.params@.len() - i,
        {
            if !busy && self.params[i].effective_polling() > 0 && self.params[i].due(n) {
                out.push(i);
            }
            i += 1;
        }
        let ghost head = out@;
        let mut i: usize = 0;
        assert(out@ =~= head + picked(0, second));
        while i < self.params.len()
            invariant
                i <= self.params@.len(),
                out@ == head + picked(i as int, second),
                second == |k: int|
                    self.params@[k].period() < 0 && self.params@[k].polled_normal(n as nat, busy),
            decreases self.params@.len() - i,
        {
            if self.params[i].effective_polling() < 0 && self.params[i].due(n) {
                out.push(i);
                assert(head + picked(i as int, second).push(i) =~= (head + picked(
                    i as int,
                    second,
                )).push(i));
            }
            i += 1;
        }
        out
    }

    /// The parameters to read on the busy tick `n`, given whether the
    /// module is busy: those with a positive period, while it is.
    pub fn poll_busy(&self, n: usize, busy: bool) -> (r: Vec<usize>)
        ensures
            r@ == self.busy_polled(n as nat, busy),
    {
        let ghost keep = |k: int| self.params@[k].polled_busy(n as nat, busy);
        let mut out: Vec<usize> = Vec::new();
        let mut i: usize = 0;
        while i < self.params.len()
            invariant
                i <= self.params@.len(),
                out@ == picked(i as int, keep),
                keep == |k: int| self.params@[k].polled_busy(n as nat, busy),
            decreases self.params@.len() - i,
        {
            if busy && self.params[i].effective_polling() > 0 && self.params[i].due(n) {
                out.push(i);
            }
            i += 1;
        }
        out
    }

    /// How the parameter at place `index` gets its first value in a module
    /// with the given configuration.
    pub fn init_action_for(&self, index: usize, config: &ModuleConfig) -> (r: InitAction)
        requires
            index < self.params@.len(),
        ensures
            r == init_action_of(
                self.params@[index as int].swonly,
                self.params@[index as int].readonly,
                config.configured(self.params@[index as int].name@) is Some,
                self.params@[index as int].has_default,
            ),
    {
        let decl = &self.params[index];
        let configured = config.parameter(decl.name.as_str()).is_some();
        init_action(decl.swonly, decl.readonly, configured, decl.has_default)
    }

    /// The order in which the parameters get their first values: those
    /// that live in software only, then the writable ones of the hardware,
    /// then the read-only ones of the hardware, so that what is written
    /// comes before what is read.
    pub open spec fn init_order_of(&self) -> Seq<usize> {
        picked(self.params@.len() as int, |k: int| self.params@[k].swonly) + picked(
            self.params@.len() as int,
            |k: int| !self.params@[k].swonly && !self.params@[k].readonly,
        ) + picked(
            self.params@.len() as int,
            |k: int| !self.params@[k].swonly && self.params@[k].readonly,
        )
    }

    /// The order in which the parameters get their first values.
    pub fn init_order(&self) -> (r: Vec<usize>)
        ensures
            r@ == self.init_order_of(),
    {
        let ghost first = |k: int| self.params@[k].swonly;
        let ghost second = |k: int| !self.params@[k].swonly && !self.params@[k].readonly;
        let ghost third = |k: int| !self.params@[k].swonly && self.params@[k].readonly;
        let mut out: Vec<usize> = Vec::new();
        let mut i: usize = 0;
        while i < self.params.len()
            invariant
                i <= self.params@.len(),
                out@ == picked(i as int, first),
                first == |k: int| self.params@[k].swonly,
            decreases self.params@.len() - i,
        {
            if self.params[i].swonly {
                out.push(i);
            }
            i += 1;
        }
        let ghost head = out@;
        let mut i: usize = 0;
        assert(out@ =~= head + picked(0, second));
        while i < self.params.len()
            invariant
                i <= self.params@.len(),
                out@ == head + picked(i as int, second),
                second == |k: int| !self.params@[k].swonly && !self.params@[k].readonly,
            decreases self.params@.len() - i,
        {
            if !self.params[i].swonly && !self.params[i].readonly {
                out.push(i);
                assert(head + picked(i as int, second).push(i) =~= (head + picked(
                    i as int,
                    second,
                )).push(i));
            }
            i += 1;
        }
        let ghost middle = out@;
        let mut i: usize = 0;
        assert(out@ =~= middle + picked(0, third));
        while i < self.params.len()
            invariant
                i <= self.params@.len(),
                out@ == middle + picked(i as int, third),
                third == |k: int| !self.params@[k].swonly && self.params@[k].readonly,
            decreases self.params@.len() - i,
        {
            if !self.params[i].swonly && self.params[i].readonly {
                out.push(i);
                assert(middle + picked(i as int, third).push(i) =~= (middle + picked(
                    i as int,
                    third,
                )).push(i));
            }
            i += 1;
        }
        out
    }
}

/// The polling cadence: a parameter is in the list of a normal tick
/// exactly where it is polled on that tick, and in the list of a busy tick
/// exactly where it is polled on that one.  A parameter with the positive
/// period `p` is thus read on every `p`-th normal tick while the module is
/// not busy and on every `p`-th busy tick while it is, and never on both.
pub proof fn lemma_polling_cadence(table: ModuleTable, n: nat, busy: bool, k: int)
    requires
        0 <= k < table.params@.len(),
        table.params@.len() <= usize::MAX,
    ensures
        (table.normal_accelerated(n, busy) + table.normal_steady(n, busy)).contains(k as usize)
            <==> table.params@[k].polled_normal(n, busy),
        table.busy_polled(n, busy).contains(k as usize) <==> table.params@[k].polled_busy(n, busy),
        !(table.params@[k].polled_normal(n, busy) && table.params@[k].polled_busy(n, busy)),
{
    let len = table.params@.len() as int;
    let first = |k: int|
        table.params@[k].period() > 0 && table.params@[k].polled_normal(n, busy);
    let second = |k: int|
        table.params@[k].period() < 0 && table.params@[k].polled_normal(n, busy);
    let third = |k: int| table.params@[k].polled_busy(n, busy);
    lemma_picked(len, first);
    lemma_picked(len, second);
    lemma_picked(len, third);
    let a = picked(len, first);
    let b = picked(len, second);
    let both = a + b;
    if both.contains(k as usize) {
        let i = choose|i: int| 0 <= i < both.len() && both[i] == k as usize;
        if i < a.len() {
            assert(a[i] == k as usize);
        } else {
            assert(b[i - a.len()] == k as usize);
        }
    }
    if table.params@[k].polled_normal(n, busy) {
        if first(k) {
            let i = choose|i: int| 0 <= i < a.len() && a[i] == k as usize;
            assert(both[i] == k as usize);
        } else {
            assert(second(k));
            let i = choose|i: int| 0 <= i < b.len() && b[i] == k as usize;
            assert(both[a.len() + i] == k as usize);
        }
    }
    let c = picked(len, third);
    if c.contains(k as usize) {
        let i = choose|i: int| 0 <= i < c.len() && c[i] == k as usize;
        assert(third(c[i] as int));
    }
    if table.params@[k].polled_busy(n, busy) {
        assert(third(k));
    }
}


/// The entry of a parameter in the descriptive data of its module.
pub open spec fn param_entry(p: ParamDecl) -> (Seq<char>, JsonView) {
    (
        p.name@,
        JsonView::Object(
            seq![
                ("description"@, JsonView::Str(p.doc@)),
                ("datainfo"@, p.datainfo@),
                ("readonly"@, JsonView::Bool(p.readonly)),
                ("group"@, JsonView::Str(p.group@)),
                ("visibility"@, JsonView::Str(p.visibility@)),
            ] + (if p.unit@.len() > 0 {
                seq![("unit"@, JsonView::Str(p.unit@))]
            } else {
                seq![]
            }),
        ),
    )
}

/// The entry of a command in the descriptive data of its module.
pub open spec fn command_entry(c: CommandDecl) -> (Seq<char>, JsonView) {
    (
        c.name@,
        JsonView::Object(
            seq![
                ("description"@, JsonView::Str(c.doc@)),
                (
                    "datainfo"@,
                    JsonView::Object(
                        seq![
                            ("type"@, JsonView::Str("command"@)),
                            ("argument"@, c.argument@),
                            ("result"@, c.result@),
                        ],
                    ),
                ),
                ("group"@, JsonView::Str(c.group@)),
                ("visibility"@, JsonView::Str(c.visibility@)),
            ],
        ),
    )
}

/// The entries of the first `n` parameters, those of visibility `none`
/// left out.
pub open spec fn param_entries(params: Seq<ParamDecl>, n: int) -> Seq<(Seq<char>, JsonView)>
    decreases n,
{
    if n <= 0 {
        Seq::empty()
    } else if params[n - 1].visibility@ != "none"@ {
        param_entries(params, n - 1).push(param_entry(params[n - 1]))
    } else {
        param_entries(params, n - 1)
    }
}

/// The entries of the first `n` commands, those of visibility `none` left
/// out.
pub open spec fn command_entries(commands: Seq<CommandDecl>, n: int) -> Seq<(Seq<char>, JsonView)>
    decreases n,
{
    if n <= 0 {
        Seq::empty()
    } else if commands[n - 1].visibility@ != "none"@ {
        command_entries(commands, n - 1).push(command_entry(commands[n - 1]))
    } else {
        command_entries(commands, n - 1)
    }
}

/// The descriptive data of a module.
pub open spec fn module_description(table: ModuleTable, config: ModuleConfig) -> JsonView {
    JsonView::Object(
        seq![
            ("description"@, JsonView::Str(config.description@)),
            ("interface_classes"@, JsonView::Array(seq![JsonView::Str("Drivable"@)])),
            ("features"@, JsonView::Array(seq![])),
            ("visibility"@, JsonView::Str(config.visibility.word_of())),
            (
                "group"@,
                match config.group {
                    Some(g) => JsonView::Str(g@),
                    None => JsonView::Null,
                },
            ),
            (
                "accessibles"@,
                JsonView::Object(
                    param_entries(table.params@, table.params@.len() as int) + command_entries(
                        table.commands@,
                        table.commands@.len() as int,
                    ),
                ),
            ),
        ],
    )
}

fn describe_param(p: &ParamDecl) -> (r: (String, Json))
    ensures
        (r.0@, r.1@) == param_entry(*p),
{
    let mut members = new_members();
    push_member(&mut members, "description", Json::Str(p.doc.clone()));
    push_member(&mut members, "datainfo", p.datainfo.clone());
    push_member(&mut members, "readonly", Json::Bool(p.readonly));
    push_member(&mut members, "group", Json::Str(p.group.clone()));
    push_member(&mut members, "visibility", Json::Str(p.visibility.clone()));
    if !p.unit.as_str().is_empty() {
        push_member(&mut members, "unit", Json::Str(p.unit.clone()));
    }
    let entry = Json::object(members);
    assert(entry@->Object_0 =~= param_entry(*p).1->Object_0);
    (p.name.clone(), entry)
}

fn describe_command(c: &CommandDecl) -> (r: (String, Json))
    ensures
        (r.0@, r.1@) == command_entry(*c),
{
    let mut datainfo = new_members();
    push_member(&mut datainfo, "type", Json::text("command"));
    push_member(&mut datainfo, "argument", c.argument.clone());
    push_member(&mut datainfo, "result", c.result.clone());
    let datainfo = Json::object(datainfo);
    assert(datainfo@->Object_0 =~= seq![
        ("type"@, JsonView::Str("command"@)),
        ("argument"@, c.argument@),
        ("result"@, c.result@),
    ]);
    let mut members = new_members();
    push_member(&mut members, "description", Json::Str(c.doc.clone()));
    push_member(&mut members, "datainfo", datainfo);
    push_member(&mut members, "group", Json::Str(c.group.clone()));
    push_member(&mut members, "visibility", Json::Str(c.visibility.clone()));
    let entry = Json::object(members);
    assert(entry@->Object_0 =~= command_entry(*c).1->Object_0);
    (c.name.clone(), entry)
}

impl ModuleTable {
    /// The descriptive data of the module: its own properties and an
    /// entry for every parameter and command whose visibility is not
    /// `none`.
    pub fn describe(&self, config: &ModuleConfig) -> (r: Json)
        ensures
            r@ == module_description(*self, *config),
    {
        let mut entries: Vec<(String, Json)> = Vec::new();
        let mut i: usize = 0;
        assert(member_views_of(entries@) =~= param_entries(self.params@, 0));
        while i < self.params.len()
            invariant
                i <= self.params@.len(),
                member_views_of(entries@) == param_entries(self.params@, i as int),
            decreases self.params@.len() - i,
        {
            if !same_text(self.params[i].visibility.as_str(), "none") {
                let ghost before = entries@;
                let entry = describe_param(&self.params[i]);
                entries.push(entry);
                assert(member_views_of(entries@) =~= member_views_of(before).push(
                    param_entry(self.params@[i as int]),
                ));
            }
            i += 1;
        }
        let ghost head = member_views_of(entries@);
        let mut i: usize = 0;
        assert(member_views_of(entries@) =~= head + command_entries(self.commands@, 0));
        while i < self.commands.len()
            invariant
                i <= self.commands@.len(),
                member_views_of(entries@) == head + command_entries(self.commands@, i as int),
            decreases self.commands@.len() - i,
        {
            if !same_text(self.commands[i].visibility.as_str(), "none") {
                let ghost before = entries@;
                let entry = describe_command(&self.commands[i]);
                entries.push(entry);
                assert(member_views_of(entries@) =~= member_views_of(before).push(
                    command_entry(self.commands@[i as int]),
                ));
                assert(head + command_entries(self.commands@, i as int).push(
                    command_entry(self.commands@[i as int]),
                ) =~= (head + command_entries(self.commands@, i as int)).push(
                    command_entry(self.commands@[i as int]),
                ));
            }
            i += 1;
        }
        let mut classes: Vec<Json> = Vec::new();
        classes.push(Json::text("Drivable"));
        let classes = Json::array(classes);
        assert(classes@->Array_0 =~= seq![JsonView::Str("Drivable"@)]);
        let features = Json::array(Vec::new());
        assert(features@->Array_0 =~= Seq::<JsonView>::empty());
        let group = match &config.group {
            Some(g) => Json::Str(g.clone()),
            None => Json::Null,
        };
        let mut members = new_members();
        push_member(&mut members, "description", Json::Str(config.description.clone()));
        push_member(&mut members, "interface_classes", classes);
        push_member(&mut members, "features", features);
        push_member(&mut members, "visibility", Json::text(config.visibility.word()));
        push_member(&mut members, "group", group);
        push_member(&mut members, "accessibles", Json::object(entries));
        let r = Json::object(members);
        assert(r@->Object_0 =~= module_description(*self, *config)->Object_0);
        r
    }
}

} // verus!
