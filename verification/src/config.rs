//! The configuration of a node: its modules, their parameters, and the
//! rule that module names are unique without regard to case.

use vstd::prelude::*;
use crate::json::{Json, JsonView, member_views_of};
use crate::text::{lower_text, same_chars, same_text, to_lower};
use crate::types::TypeInfo;

verus! {

/// Who gets to see a module, a parameter or a command.
#[derive(Debug, Clone, Copy, PartialEq, Eq, Structural)]
pub enum Visibility {
    Hidden,
    User,
    Advanced,
    Expert,
}

impl Default for Visibility {
    fn default() -> (r: Self)
        ensures
            r == Visibility::User,
    {
        Visibility::User
    }
}

impl Visibility {
    /// The word for a visibility in configuration files and descriptions.
    pub open spec fn word_of(self) -> Seq<char> {
        match self {
            Visibility::Hidden => "none"@,
            Visibility::User => "user"@,
            Visibility::Advanced => "advanced"@,
            Visibility::Expert => "expert"@,
        }
    }

    /// The visibility that a word stands for.
    pub open spec fn of_word(word: Seq<char>) -> Option<Visibility> {
        if word == "none"@ {
            Some(Visibility::Hidden)
        } else if word == "user"@ {
            Some(Visibility::User)
        } else if word == "advanced"@ {
            Some(Visibility::Advanced)
        } else if word == "expert"@ {
            Some(Visibility::Expert)
        } else {
            None
        }
    }

    /// The word for this visibility.
    pub fn word(self) -> (r: &'static str)
        ensures
            r@ == self.word_of(),
    {
        match self {
            Visibility::Hidden => "none",
            Visibility::User => "user",
            Visibility::Advanced => "advanced",
            Visibility::Expert => "expert",
        }
    }

    /// Reads a visibility from its word.
    pub fn parse(word: &str) -> (r: Option<Visibility>)
        ensures
            r == Self::of_word(word@),
    {
        if same_text(word, "none") {
            Some(Visibility::Hidden)
        } else if same_text(word, "user") {
            Some(Visibility::User)
        } else if same_text(word, "advanced") {
            Some(Visibility::Advanced)
        } else if same_text(word, "expert") {
            Some(Visibility::Expert)
        } else {
            None
        }
    }
}

/// The visibility that is assumed where none is given.
pub fn default_visibility() -> (r: String)
    ensures
        r@ == "user"@,
{
    "user".to_string()
}

/// The configuration of one module.
#[derive(Debug, Clone)]
pub struct ModuleConfig {
    pub class: String,
    pub description: String,
    pub group: Option<String>,
    pub parameters: Vec<(String, Json)>,
    pub visibility: Visibility,
}

/// The configuration of a node.
#[derive(Debug, Clone)]
pub struct ServerConfig {
    pub equipment_id: String,
    pub description: String,
    pub modules: Vec<(String, ModuleConfig)>,
}

/// The first place at or after `from` where a parameter of the given name
/// is configured, or the number of configured parameters where none is.
pub open spec fn parameter_position(
    parameters: Seq<(Seq<char>, JsonView)>,
    name: Seq<char>,
    from: int,
) -> int
    decreases parameters.len() - from,
{
    if 0 <= from < parameters.len() {
        if parameters[from].0 == name {
            from
        } else {
            parameter_position(parameters, name, from + 1)
        }
    } else {
        parameters.len() as int
    }
}

pub proof fn lemma_parameter_position(
    parameters: Seq<(Seq<char>, JsonView)>,
    name: Seq<char>,
    from: int,
)
    requires
        0 <= from <= parameters.len(),
    ensures
        from <= parameter_position(parameters, name, from) <= parameters.len(),
    decreases parameters.len() - from,
{
    if from < parameters.len() && parameters[from].0 != name {
        lemma_parameter_position(parameters, name, from + 1);
    }
}

impl ModuleConfig {
    /// The configured parameters, as names and values.
    pub open spec fn overrides(&self) -> Seq<(Seq<char>, JsonView)> {
        member_views_of(self.parameters@)
    }

    /// The value that is configured for a parameter, if any.
    pub open spec fn configured(&self, param: Seq<char>) -> Option<JsonView> {
        let at = parameter_position(self.overrides(), param, 0);
        if at < self.overrides().len() {
            Some(self.overrides()[at].1)
        } else {
            None
        }
    }

    /// The value that is configured for a parameter, if any.
    pub fn parameter(&self, param: &str) -> (r: Option<&Json>)
        ensures
            match r {
                Some(j) => self.configured(param@) == Some(j@),
                None => self.configured(param@) is None,
            },
    {
        let mut i: usize = 0;
        while i < self.parameters.len() && !same_text(self.parameters[i].0.as_str(), param)
            invariant
                i <= self.parameters@.len(),
                parameter_position(self.overrides(), param@, 0) == parameter_position(
                    self.overrides(),
                    param@,
                    i as int,
                ),
            decreases self.parameters@.len() - i,
        {
            i += 1;
        }
        proof {
            lemma_parameter_position(self.overrides(), param@, 0);
        }
        if i < self.parameters.len() {
            Some(&self.parameters[i].1)
        } else {
            None
        }
    }

    /// The configured value of a parameter, decoded by its type: nothing
    /// where none is configured or the type refuses it.
    pub fn extract_param<T: TypeInfo>(&self, param: &str, td: &T) -> (r: Option<T::Repr>)
        ensures
            match r {
                Some(v) => self.configured(param@) is Some && td.decoded(
                    self.configured(param@)->0,
                ) == Ok::<<T::Repr as DeepView>::V, crate::errors::ErrorView>(v.deep_view()),
                None => self.configured(param@) is None || td.decoded(
                    self.configured(param@)->0,
                ) is Err,
            },
    {
        match self.parameter(param) {
            Some(j) => match td.from_json(j) {
                Ok(v) => Some(v),
                Err(_) => None,
            },
            None => None,
        }
    }
}

/// The names of a list of configured modules.
pub open spec fn module_names(modules: Seq<(String, ModuleConfig)>) -> Seq<Seq<char>> {
    Seq::new(modules.len(), |i: int| modules[i].0@)
}

/// The groups of a list of configured modules.
pub open spec fn module_groups(modules: Seq<(String, ModuleConfig)>) -> Seq<Option<Seq<char>>> {
    Seq::new(
        modules.len(),
        |i: int|
            match modules[i].1.group {
                Some(g) => Some(g@),
                None => None,
            },
    )
}

/// Whether the module at place `k` has a name that, without regard to
/// case, is the name of a module before it or the group of any module.
pub open spec fn clashes(names: Seq<Seq<char>>, groups: Seq<Option<Seq<char>>>, k: int) -> bool {
    ||| exists|j: int| 0 <= j < k && lower_text(#[trigger] names[j]) == lower_text(names[k])
    ||| exists|j: int|
        0 <= j < groups.len() && (#[trigger] groups[j]) is Some && lower_text(groups[j]->0)
            == lower_text(names[k])
}

/// The first module whose name clashes, or the number of modules where
/// none does.
pub open spec fn first_clash(names: Seq<Seq<char>>, groups: Seq<Option<Seq<char>>>, from: int) -> int
    decreases names.len() - from,
{
    if 0 <= from < names.len() {
        if clashes(names, groups, from) {
            from
        } else {
            first_clash(names, groups, from + 1)
        }
    } else {
        names.len() as int
    }
}

/// The message that refuses a module name.
pub open spec fn clash_message(name: Seq<char>) -> Seq<char> {
    "module name "@ + name + " is not unique amoung modules and groups"@
}

impl ServerConfig {
    /// Whether the module at place `k` clashes with a module before it or
    /// with a group.
    fn clashes_at(&self, k: usize) -> (r: bool)
        requires
            k < self.modules@.len(),
        ensures
            r == clashes(module_names(self.modules@), module_groups(self.modules@), k as int),
    {
        let ghost names = module_names(self.modules@);
        let ghost groups = module_groups(self.modules@);
        let name = to_lower(self.modules[k].0.as_str());
        let mut j: usize = 0;
        while j < k
            invariant
                j <= k < self.modules@.len(),
                names == module_names(self.modules@),
                name@ == lower_text(names[k as int]),
                forall|i: int| 0 <= i < j ==> lower_text(#[trigger] names[i]) != name@,
            decreases k - j,
        {
            let other = to_lower(self.modules[j].0.as_str());
            if same_chars(&other, &name) {
                assert(lower_text(names[j as int]) == lower_text(names[k as int]));
                return true;
            }
            j += 1;
        }
        let mut g: usize = 0;
        while g < self.modules.len()
            invariant
                g <= self.modules@.len(),
                k < self.modules@.len(),
                names == module_names(self.modules@),
                groups == module_groups(self.modules@),
                name@ == lower_text(names[k as int]),
                forall|i: int| 0 <= i < k ==> lower_text(#[trigger] names[i]) != name@,
                forall|i: int|
                    0 <= i < g ==> !((#[trigger] groups[i]) is Some && lower_text(groups[i]->0)
                        == name@),
            decreases self.modules@.len() - g,
        {
            match &self.modules[g].1.group {
                Some(group) => {
                    let other = to_lower(group.as_str());
                    if same_chars(&other, &name) {
                        assert(groups[g as int] is Some && lower_text(groups[g as int]->0)
                            == lower_text(names[k as int]));
                        return true;
                    }
                },
                None => {},
            }
            g += 1;
        }
        false
    }

    /// Checks that no module name is, without regard to case, the name of
    /// another module or of a group.  The error names the first module
    /// that clashes.
    pub fn check_names(&self) -> (r: Result<(), String>)
        ensures
            ({
                let names = module_names(self.modules@);
                let at = first_clash(names, module_groups(self.modules@), 0);
                match r {
                    Ok(_) => at == names.len(),
                    Err(message) => at < names.len() && message@ == clash_message(names[at]),
                }
            }),
    {
        let ghost names = module_names(self.modules@);
        let ghost groups = module_groups(self.modules@);
        let mut k: usize = 0;
        while k < self.modules.len()
            invariant
                k <= self.modules@.len(),
                names == module_names(self.modules@),
                groups == module_groups(self.modules@),
                first_clash(names, groups, 0) == first_clash(names, groups, k as int),
            decreases self.modules@.len() - k,
        {
            if self.clashes_at(k) {
                let mut message = "module name ".to_string();
                message.append(self.modules[k].0.as_str());
                message.append(" is not unique amoung modules and groups");
                return Err(message);
            }
            k += 1;
        }
        Ok(())
    }
}

/// Two modules whose names differ in case only are refused.
pub proof fn lemma_names_clash(
    names: Seq<Seq<char>>,
    groups: Seq<Option<Seq<char>>>,
    i: int,
    j: int,
)
    requires
        0 <= i < j < names.len(),
        lower_text(names[i]) == lower_text(names[j]),
    ensures
        first_clash(names, groups, 0) < names.len(),
{
    assert(clashes(names, groups, j));
    lemma_first_clash(names, groups, 0, j);
}

/// A module whose name differs in case only from a group is refused.
pub proof fn lemma_group_clash(
    names: Seq<Seq<char>>,
    groups: Seq<Option<Seq<char>>>,
    k: int,
    g: int,
)
    requires
        0 <= k < names.len(),
        0 <= g < groups.len(),
        groups[g] is Some,
        lower_text(groups[g]->0) == lower_text(names[k]),
    ensures
        first_clash(names, groups, 0) < names.len(),
{
    assert(clashes(names, groups, k));
    lemma_first_clash(names, groups, 0, k);
}

proof fn lemma_first_clash(names: Seq<Seq<char>>, groups: Seq<Option<Seq<char>>>, from: int, at: int)
    requires
        0 <= from <= at < names.len(),
        clashes(names, groups, at),
    ensures
        first_clash(names, groups, from) <= at,
    decreases at - from,
{
    if from < at && !clashes(names, groups, from) {
        lemma_first_clash(names, groups, from + 1, at);
    }
}

} // verus!
