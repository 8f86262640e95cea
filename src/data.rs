use vstd::prelude::*;

verus! {

/// Severity of a data point or a command result.
#[derive(Clone, Copy, Debug, PartialEq, Eq, Structural)]
pub enum Criticality {
    Normal,
    Info,
    Warning,
    Error,
    Critical,
    NoData,
}

/// Relies on chrono's `Utc::now` and `DateTime::timestamp`: the current time in
/// seconds since the Unix epoch. Nothing is promised of the value.
#[verifier::external_body]
pub(crate) fn current_timestamp() -> (r: i64) {
    chrono::Utc::now().timestamp()
}

/// Identifies a monitor, command or connector module: an id and a version.
/// The version `"latest"` stands for the highest available one.
#[derive(Clone, Debug)]
pub struct ModuleSpecification {
    pub id: String,
    pub version: String,
}

pub open spec fn is_latest(version: Seq<char>) -> bool {
    version == "latest"@
}

impl ModuleSpecification {
    pub fn new(id: &str, version: &str) -> (r: ModuleSpecification)
        ensures
            r.id@ == id@,
            r.version@ == version@,
    {
        ModuleSpecification { id: String::from_str(id), version: String::from_str(version) }
    }

    /// Structural equality of two specifications.
    pub open spec fn same_as(&self, other: &ModuleSpecification) -> bool {
        self.id@ == other.id@ && self.version@ == other.version@
    }

    /// Ids match, and either version is `"latest"` or the versions are equal.
    pub open spec fn spec_compatible(&self, other: &ModuleSpecification) -> bool {
        self.id@ == other.id@ && (is_latest(self.version@) || is_latest(other.version@)
            || self.version@ == other.version@)
    }

    pub fn equals(&self, other: &ModuleSpecification) -> (r: bool)
        ensures
            r == self.same_as(other),
    {
        self.id == other.id && self.version == other.version
    }

    pub fn is_compatible(&self, other: &ModuleSpecification) -> (r: bool)
        ensures
            r == self.spec_compatible(other),
    {
        proof {
            reveal_strlit("latest");
        }
        let latest = String::from_str("latest");
        self.id == other.id && (self.version == latest || other.version == latest
            || self.version == other.version)
    }

    pub fn duplicate(&self) -> (r: ModuleSpecification)
        ensures
            r.same_as(self),
    {
        ModuleSpecification { id: self.id.clone(), version: self.version.clone() }
    }
}

/// One observation of a monitor. A data point with a non-empty `multivalue`
/// list is a multivalue point; its children may be multivalue too.
#[derive(Debug)]
pub struct DataPoint {
    pub label: String,
    pub value: String,
    pub description: String,
    pub tags: Vec<String>,
    pub criticality: Criticality,
    pub multivalue: Vec<DataPoint>,
    pub command_params: Vec<String>,
    pub invocation_id: u64,
    pub timestamp: i64,
}

impl DataPoint {
    pub fn new(value: String) -> (r: DataPoint)
        ensures
            r.value == value,
            r.label@.len() == 0,
            r.criticality == Criticality::Normal,
            r.multivalue@.len() == 0,
            r.invocation_id == 0,
    {
        DataPoint::new_with_level(value, Criticality::Normal)
    }

    pub fn new_with_level(value: String, criticality: Criticality) -> (r: DataPoint)
        ensures
            r.value == value,
            r.label@.len() == 0,
            r.criticality == criticality,
            r.multivalue@.len() == 0,
            r.invocation_id == 0,
    {
        DataPoint {
            label: String::new(),
            value,
            description: String::new(),
            tags: Vec::new(),
            criticality,
            multivalue: Vec::new(),
            command_params: Vec::new(),
            invocation_id: 0,
            timestamp: current_timestamp(),
        }
    }

    pub fn labeled(label: String, value: String) -> (r: DataPoint)
        ensures
            r.label == label,
            r.value == value,
            r.criticality == Criticality::Normal,
            r.multivalue@.len() == 0,
            r.invocation_id == 0,
    {
        let mut point = DataPoint::new(value);
        point.label = label;
        point
    }

    /// The placeholder that stands for a monitor before its first result.
    pub fn no_data() -> (r: DataPoint)
        ensures
            r.value@.len() == 0,
            r.criticality == Criticality::NoData,
            r.multivalue@.len() == 0,
            r.invocation_id == 0,
    {
        DataPoint::new_with_level(String::new(), Criticality::NoData)
    }

    pub fn empty() -> (r: DataPoint)
        ensures
            r.value@.len() == 0,
            r.criticality == Criticality::Normal,
            r.multivalue@.len() == 0,
            r.invocation_id == 0,
    {
        DataPoint::new_with_level(String::new(), Criticality::Normal)
    }

    /// The starting result of a refresh: what is published if the base module fails.
    pub fn empty_and_critical() -> (r: DataPoint)
        ensures
            r.value@.len() == 0,
            r.criticality == Criticality::Critical,
            r.multivalue@.len() == 0,
            r.invocation_id == 0,
    {
        DataPoint::new_with_level(String::new(), Criticality::Critical)
    }

    pub fn is_multivalue(&self) -> (r: bool)
        ensures
            r == (self.multivalue@.len() > 0),
    {
        self.multivalue.len() > 0
    }
}

/// The outcome of a command.
#[derive(Clone, Debug)]
pub struct CommandResult {
    pub message: String,
    pub criticality: Criticality,
    pub time: i64,
    pub invocation_id: u64,
    pub command_id: String,
    /// The message is a payload for the UI action, not text for the user.
    pub hidden: bool,
}

impl CommandResult {
    pub fn new_with_level(message: String, criticality: Criticality) -> (r: CommandResult)
        ensures
            r.message == message,
            r.criticality == criticality,
            r.invocation_id == 0,
            r.command_id@.len() == 0,
            !r.hidden,
    {
        CommandResult {
            message,
            criticality,
            time: current_timestamp(),
            invocation_id: 0,
            command_id: String::new(),
            hidden: false,
        }
    }

    pub fn new(message: String) -> (r: CommandResult)
        ensures
            r.message == message,
            r.criticality == Criticality::Normal,
            r.invocation_id == 0,
            r.command_id@.len() == 0,
            !r.hidden,
    {
        CommandResult::new_with_level(message, Criticality::Normal)
    }

    pub fn new_info(message: String) -> (r: CommandResult)
        ensures
            r.message == message,
            r.criticality == Criticality::Info,
            r.invocation_id == 0,
            !r.hidden,
    {
        CommandResult::new_with_level(message, Criticality::Info)
    }

    pub fn new_error(message: String) -> (r: CommandResult)
        ensures
            r.message == message,
            r.criticality == Criticality::Error,
            r.invocation_id == 0,
            !r.hidden,
    {
        CommandResult::new_with_level(message, Criticality::Error)
    }

    pub fn new_critical_error(message: String) -> (r: CommandResult)
        ensures
            r.message == message,
            r.criticality == Criticality::Critical,
            r.invocation_id == 0,
            !r.hidden,
    {
        CommandResult::new_with_level(message, Criticality::Critical)
    }

    pub fn new_hidden(message: String) -> (r: CommandResult)
        ensures
            r.message == message,
            r.criticality == Criticality::Normal,
            r.invocation_id == 0,
            r.hidden,
    {
        let mut result = CommandResult::new(message);
        result.hidden = true;
        result
    }

    pub fn empty() -> (r: CommandResult)
        ensures
            r.message@.len() == 0,
            r.criticality == Criticality::Normal,
            r.invocation_id == 0,
            !r.hidden,
    {
        CommandResult::new(String::new())
    }

    pub fn empty_and_critical() -> (r: CommandResult)
        ensures
            r.message@.len() == 0,
            r.criticality == Criticality::Critical,
            r.invocation_id == 0,
            !r.hidden,
    {
        CommandResult::new_with_level(String::new(), Criticality::Critical)
    }

    pub fn with_invocation_id(self, invocation_id: u64) -> (r: CommandResult)
        ensures
            r == (CommandResult { invocation_id, ..self }),
    {
        let mut result = self;
        result.invocation_id = invocation_id;
        result
    }
}

/// An error reported alongside an update, with its severity.
#[derive(Clone, Debug)]
pub struct ErrorMessage {
    pub criticality: Criticality,
    pub message: String,
}

/// What a connector answered to one message.
#[derive(Clone, Debug)]
pub struct ResponseMessage {
    pub message: String,
    pub return_code: i32,
    pub is_error: bool,
}

impl ResponseMessage {
    pub fn new(message: String) -> (r: ResponseMessage)
        ensures
            r.message == message,
            r.return_code == 0,
            !r.is_error,
    {
        ResponseMessage { message, return_code: 0, is_error: false }
    }

    pub fn empty() -> (r: ResponseMessage)
        ensures
            r.message@.len() == 0,
            r.return_code == 0,
            !r.is_error,
    {
        ResponseMessage::new(String::new())
    }
}

/// Coarse per-host flags.
#[derive(Clone, Copy, Debug, PartialEq, Eq, Structural)]
pub enum HostSetting {
    UseSudo,
}

/// Operating system, flavor, version and architecture of a host; all empty while unknown.
#[derive(Clone, Debug)]
pub struct PlatformInfo {
    pub os: String,
    pub os_version: String,
    pub os_flavor: String,
    pub architecture: String,
}

impl PlatformInfo {
    pub open spec fn same_as(&self, other: &PlatformInfo) -> bool {
        &&& self.os@ == other.os@
        &&& self.os_version@ == other.os_version@
        &&& self.os_flavor@ == other.os_flavor@
        &&& self.architecture@ == other.architecture@
    }

    pub fn duplicate(&self) -> (r: PlatformInfo)
        ensures
            r.same_as(self),
    {
        PlatformInfo {
            os: self.os.clone(),
            os_version: self.os_version.clone(),
            os_flavor: self.os_flavor.clone(),
            architecture: self.architecture.clone(),
        }
    }

    pub fn unset() -> (r: PlatformInfo)
        ensures
            !r.spec_is_set(),
            r.os_version@.len() == 0,
            r.os_flavor@.len() == 0,
            r.architecture@.len() == 0,
    {
        PlatformInfo {
            os: String::new(),
            os_version: String::new(),
            os_flavor: String::new(),
            architecture: String::new(),
        }
    }

    pub open spec fn spec_is_set(&self) -> bool {
        self.os@.len() > 0
    }

    pub fn is_set(&self) -> (r: bool)
        ensures
            r == self.spec_is_set(),
    {
        !self.os.as_str().is_empty()
    }
}

/// A monitored machine. `name` is its unique key.
#[derive(Clone, Debug)]
pub struct Host {
    pub name: String,
    pub fqdn: String,
    pub ip_address: String,
    pub platform: PlatformInfo,
    pub settings: Vec<HostSetting>,
}

impl Host {
    /// The same host: equal names, addresses, platform and settings.
    pub open spec fn same_as(&self, other: &Host) -> bool {
        &&& self.name@ == other.name@
        &&& self.fqdn@ == other.fqdn@
        &&& self.ip_address@ == other.ip_address@
        &&& self.platform.same_as(&other.platform)
        &&& self.settings@ == other.settings@
    }

    pub fn duplicate(&self) -> (r: Host)
        ensures
            r.same_as(self),
    {
        let mut settings: Vec<HostSetting> = Vec::new();
        let mut i: usize = 0;
        while i < self.settings.len()
            invariant
                i <= self.settings@.len(),
                settings@ == self.settings@.subrange(0, i as int),
            decreases self.settings@.len() - i,
        {
            settings.push(self.settings[i]);
            assert(settings@ =~= self.settings@.subrange(0, i as int + 1));
            i = i + 1;
        }
        assert(settings@ =~= self.settings@);
        Host {
            name: self.name.clone(),
            fqdn: self.fqdn.clone(),
            ip_address: self.ip_address.clone(),
            platform: self.platform.duplicate(),
            settings,
        }
    }

    pub fn new(name: String, ip_address: String, fqdn: String, settings: Vec<HostSetting>) -> (r: Host)
        ensures
            r.name == name,
            r.ip_address == ip_address,
            r.fqdn == fqdn,
            r.settings == settings,
            !r.platform.spec_is_set(),
    {
        Host { name, fqdn, ip_address, platform: PlatformInfo::unset(), settings }
    }

    pub open spec fn spec_uses_sudo(&self) -> bool {
        exists|i: int| 0 <= i < self.settings@.len() && self.settings@[i] == HostSetting::UseSudo
    }

    pub fn uses_sudo(&self) -> (r: bool)
        ensures
            r == self.spec_uses_sudo(),
    {
        let mut i: usize = 0;
        while i < self.settings.len()
            invariant
                i <= self.settings@.len(),
                forall|j: int| 0 <= j < i ==> self.settings@[j] != HostSetting::UseSudo,
            decreases self.settings@.len() - i,
        {
            if self.settings[i] == HostSetting::UseSudo {
                return true;
            }
            i = i + 1;
        }
        false
    }
}

/// The UI action a command's result feeds.
#[derive(Clone, Copy, Debug, PartialEq, Eq, Structural)]
pub enum UIAction {
    Nothing,
    Dialog,
    TextEditor,
    Terminal,
}

/// What the UI offers for a command's result.
#[derive(Clone, Copy, Debug, PartialEq, Eq, Structural)]
pub enum CommandAction {
    NoAction,
    Dialog,
}

impl CommandAction {
    /// The command action that a UI action calls for: a dialog, or nothing.
    pub fn of(action: UIAction) -> (r: CommandAction)
        ensures
            r == (if action == UIAction::Dialog {
                CommandAction::Dialog
            } else {
                CommandAction::NoAction
            }),
    {
        if action == UIAction::Dialog {
            CommandAction::Dialog
        } else {
            CommandAction::NoAction
        }
    }
}

/// How a module's results are shown.
#[derive(Clone, Debug)]
pub struct DisplayOptions {
    pub category: String,
    pub display_text: String,
    pub display_icon: String,
    pub unit: String,
    pub action: UIAction,
    /// Whether a critical latest value of this monitor brings its host down.
    pub is_critical: bool,
}

impl DisplayOptions {
    pub fn new(category: String, display_text: String) -> (r: DisplayOptions)
        ensures
            r.category == category,
            r.display_text == display_text,
            r.unit@.len() == 0,
            r.action == UIAction::Nothing,
            !r.is_critical,
    {
        DisplayOptions {
            category,
            display_text,
            display_icon: String::new(),
            unit: String::new(),
            action: UIAction::Nothing,
            is_critical: false,
        }
    }

    /// The column header: the display text, followed by the unit in parentheses when there is one.
    pub open spec fn header_text(&self) -> Seq<char> {
        if self.unit@.len() == 0 {
            self.display_text@
        } else {
            self.display_text@ + " ("@ + self.unit@ + ")"@
        }
    }

    pub fn header(&self) -> (r: String)
        ensures
            r@ == self.header_text(),
    {
        if self.unit.as_str().is_empty() {
            self.display_text.clone()
        } else {
            let mut text = self.display_text.clone();
            text.append(" (");
            text.append(self.unit.as_str());
            text.append(")");
            text
        }
    }
}

} // verus!
