//! What a module declares: its parameters and commands, the rules that a
//! declaration has to meet, and what follows from it for initialisation,
//! polling and access.

use vstd::prelude::*;
use crate::config::Visibility;
use crate::errors::{Error, ErrorKind, ErrorView};
use crate::json::Json;
use crate::text::{lower_text, same_text, to_lower};

verus! {

/// The declaration of a parameter.
#[derive(Debug, Clone)]
pub struct ParamDecl {
    /// Name of the parameter.
    pub name: String,
    /// Description, also sent to clients.
    pub doc: String,
    /// The description of its data type.
    pub datainfo: Json,
    /// The parameter cannot be changed by a client.
    pub readonly: bool,
    /// The parameter lives in software only and is not read from hardware.
    pub swonly: bool,
    /// The parameter must be given in the configuration.
    pub mandatory: bool,
    /// The code has a default value for the parameter.
    pub has_default: bool,
    /// Poll period in ticks; negative: not accelerated while busy.
    pub polling: Option<i64>,
    /// The unit of the value.
    pub unit: String,
    /// The group under which the parameter is shown.
    pub group: String,
    /// The visibility, `none` to keep the parameter out of the description.
    pub visibility: String,
}

/// The declaration of a command.
#[derive(Debug, Clone)]
pub struct CommandDecl {
    pub name: String,
    pub doc: String,
    /// The description of the type of its argument.
    pub argument: Json,
    /// The description of the type of its result.
    pub result: Json,
    pub group: String,
    pub visibility: String,
}

/// What is wrong with a declaration.
#[derive(Debug, Clone, Copy, PartialEq, Eq, Structural)]
pub enum DeclFault {
    NameNotUnique,
    BadVisibility,
    PolledSoftwareOnly,
    NoDefault,
    ReadonlyDefault,
    ReadonlyMandatory,
}

impl DeclFault {
    /// The message for a fault.
    pub open spec fn message_of(self) -> Seq<char> {
        match self {
            DeclFault::NameNotUnique => "param/cmd name is not unique"@,
            DeclFault::BadVisibility => "visibility is not an allowed value"@,
            DeclFault::PolledSoftwareOnly => "software-only parameters cannot be polled"@,
            DeclFault::NoDefault =>
                "software-only parameters must have a default if not mandatory"@,
            DeclFault::ReadonlyDefault => "readonly hardware parameters cannot have a default"@,
            DeclFault::ReadonlyMandatory => "readonly hardware parameters cannot be mandatory"@,
        }
    }

    /// The message for this fault.
    pub fn message(self) -> (r: &'static str)
        ensures
            r@ == self.message_of(),
    {
        match self {
            DeclFault::NameNotUnique => "param/cmd name is not unique",
            DeclFault::BadVisibility => "visibility is not an allowed value",
            DeclFault::PolledSoftwareOnly => "software-only parameters cannot be polled",
            DeclFault::NoDefault =>
                "software-only parameters must have a default if not mandatory",
            DeclFault::ReadonlyDefault => "readonly hardware parameters cannot have a default",
            DeclFault::ReadonlyMandatory => "readonly hardware parameters cannot be mandatory",
        }
    }
}

/// The poll period that is assumed where none is declared: software-only
/// parameters are not polled, the others on every tick.
pub fn default_polling(swonly: bool) -> (r: i64)
    ensures
        r == if swonly {
            0i64
        } else {
            1i64
        },
{
    if swonly {
        0
    } else {
        1
    }
}

/// How a parameter gets its first value.
#[derive(Debug, Clone, Copy, PartialEq, Eq, Structural)]
pub enum InitAction {
    /// Decode the configured value and store it in the cache.
    StoreConfig,
    /// Store the default in the cache and call the module's update hook.
    StoreDefaultAndUpdate,
    /// Store the default in the cache.
    StoreDefault,
    /// Fail: a value must be configured and none is.
    Fail,
    /// Change the parameter to the configured value.
    ChangeConfig,
    /// Change the parameter to the default.
    ChangeDefault,
    /// Read the parameter from the hardware.
    Read,
}

/// How a parameter gets its first value, by whether it lives in software
/// only, whether it is read-only, whether a value is configured for it and
/// whether the code has a default.
pub open spec fn init_action_of(
    swonly: bool,
    readonly: bool,
    configured: bool,
    has_default: bool,
) -> InitAction {
    if swonly {
        if configured {
            InitAction::StoreConfig
        } else if has_default {
            if readonly {
                InitAction::StoreDefault
            } else {
                InitAction::StoreDefaultAndUpdate
            }
        } else {
            InitAction::Fail
        }
    } else if readonly {
        InitAction::Read
    } else if configured {
        InitAction::ChangeConfig
    } else if has_default {
        InitAction::ChangeDefault
    } else {
        InitAction::Read
    }
}

/// How a parameter gets its first value.
pub fn init_action(swonly: bool, readonly: bool, configured: bool, has_default: bool) -> (r:
    InitAction)
    ensures
        r == init_action_of(swonly, readonly, configured, has_default),
{
    if swonly {
        if configured {
            InitAction::StoreConfig
        } else if has_default {
            if readonly {
                InitAction::StoreDefault
            } else {
                InitAction::StoreDefaultAndUpdate
            }
        } else {
            InitAction::Fail
        }
    } else if readonly {
        InitAction::Read
    } else if configured {
        InitAction::ChangeConfig
    } else if has_default {
        InitAction::ChangeDefault
    } else {
        InitAction::Read
    }
}

/// How a read of a parameter is served.
#[derive(Debug, Clone, Copy, PartialEq, Eq, Structural)]
pub enum ReadPlan {
    /// Encode the cached value.
    FromCache,
    /// Call the read hook, put the value into the cache, and tell the
    /// subscribers if it differs from the one before.
    FromHardware,
}

/// How a change of a parameter is served.
#[derive(Debug, Clone, Copy, PartialEq, Eq, Structural)]
pub enum ChangePlan {
    /// Decode the value, call the write hook, then read the parameter.
    Hardware,
    /// Decode the value, put it into the cache and, if it differs from the
    /// one before, tell the subscribers and call the update hook.
    Cache,
}

impl ParamDecl {
    /// The poll period in ticks: the declared one, or the default.
    pub open spec fn period(&self) -> int {
        match self.polling {
            Some(v) => v as int,
            None => if self.swonly {
                0
            } else {
                1
            },
        }
    }

    /// Whether the parameter is read on the normal tick `n`: one with a
    /// positive period every `period` ticks unless the module is busy, one
    /// with a negative period every `-period` ticks, busy or not.
    pub open spec fn polled_normal(&self, n: nat, busy: bool) -> bool {
        let p = self.period();
        if p > 0 {
            !busy && n % (p as nat) == 0
        } else if p < 0 {
            n % ((-p) as nat) == 0
        } else {
            false
        }
    }

    /// Whether the parameter is read on the busy tick `n`: one with a
    /// positive period every `period` ticks while the module is busy.
    pub open spec fn polled_busy(&self, n: nat, busy: bool) -> bool {
        let p = self.period();
        p > 0 && busy && n % (p as nat) == 0
    }

    /// The rule that the declaration breaks on its own, if any.
    pub open spec fn own_fault(&self) -> Option<DeclFault> {
        if Visibility::of_word(self.visibility@) is None {
            Some(DeclFault::BadVisibility)
        } else if self.swonly {
            if self.period() != 0 {
                Some(DeclFault::PolledSoftwareOnly)
            } else if !self.has_default && !self.mandatory {
                Some(DeclFault::NoDefault)
            } else {
                None
            }
        } else {
            if self.has_default && self.readonly {
                Some(DeclFault::ReadonlyDefault)
            } else if self.mandatory && self.readonly {
                Some(DeclFault::ReadonlyMandatory)
            } else {
                None
            }
        }
    }

    /// The effective poll period.
    pub fn effective_polling(&self) -> (r: i64)
        ensures
            r == self.period(),
    {
        match self.polling {
            Some(v) => v,
            None => default_polling(self.swonly),
        }
    }

    /// Whether the parameter is due on tick `n`, its period taken without
    /// sign.
    pub(crate) fn due(&self, n: usize) -> (r: bool)
        ensures
            self.period() > 0 ==> r == ((n as nat) % (self.period() as nat) == 0),
            self.period() < 0 ==> r == ((n as nat) % ((-self.period()) as nat) == 0),
    {
        let p: i64 = self.effective_polling();
        if p == 0 {
            false
        } else {
            let period: u64 = if p > 0 {
                p as u64
            } else {
                ((-(p + 1)) as u64) + 1
            };
            (n as u64) % period == 0
        }
    }

    /// Checks the rules that a declaration has to meet on its own.
    pub fn check(&self) -> (r: Option<DeclFault>)
        ensures
            r == self.own_fault(),
    {
        if Visibility::parse(self.visibility.as_str()).is_none() {
            Some(DeclFault::BadVisibility)
        } else if self.swonly {
            if self.effective_polling() != 0 {
                Some(DeclFault::PolledSoftwareOnly)
            } else if !self.has_default && !self.mandatory {
                Some(DeclFault::NoDefault)
            } else {
                None
            }
        } else {
            if self.has_default && self.readonly {
                Some(DeclFault::ReadonlyDefault)
            } else if self.mandatory && self.readonly {
                Some(DeclFault::ReadonlyMandatory)
            } else {
                None
            }
        }
    }

    /// How a read of the parameter is served.
    pub fn read_plan(&self) -> (r: ReadPlan)
        ensures
            r == if self.swonly {
                ReadPlan::FromCache
            } else {
                ReadPlan::FromHardware
            },
    {
        if self.swonly {
            ReadPlan::FromCache
        } else {
            ReadPlan::FromHardware
        }
    }

    /// How a change of the parameter is served; a read-only parameter
    /// refuses it.
    pub fn change_plan(&self) -> (r: Result<ChangePlan, Error>)
        ensures
            match r {
                Ok(plan) => !self.readonly && plan == if self.swonly {
                    ChangePlan::Cache
                } else {
                    ChangePlan::Hardware
                },
                Err(e) => self.readonly && e@ == (ErrorView {
                    kind: ErrorKind::ReadOnly,
                    message: Seq::empty(),
                }),
            },
    {
        if self.readonly {
            Err(Error::new_owned(ErrorKind::ReadOnly, String::new()))
        } else if self.swonly {
            Ok(ChangePlan::Cache)
        } else {
            Ok(ChangePlan::Hardware)
        }
    }
}

} // verus!
