use vstd::prelude::*;

use crate::configuration::{get_setting, settings_map, SettingsMap};
use crate::data::{CommandResult, Criticality, DisplayOptions, Host, ModuleSpecification, ResponseMessage};
use crate::error::LkError;
use crate::modules::CommandModule;
use crate::monitoring_modules::{split_on, split_text};
use crate::data::PlatformInfo;

verus! {

/// The shell command line that `sudo` prefixes when `use_sudo` holds.
pub open spec fn with_sudo(line: Seq<char>, use_sudo: bool) -> Seq<char> {
    if use_sudo {
        "sudo "@ + line
    } else {
        line
    }
}

pub(crate) fn prefix_sudo(line: String, use_sudo: bool) -> (r: String)
    ensures
        r@ == with_sudo(line@, use_sudo),
{
    if use_sudo {
        let mut text = String::from_str("sudo ");
        text.append(line.as_str());
        text
    } else {
        line
    }
}

pub(crate) fn ssh_connector() -> (r: ModuleSpecification)
    ensures
        r.id@ == "ssh"@,
        r.version@ == "0.0.1"@,
{
    ModuleSpecification::new("ssh", "0.0.1")
}

pub(crate) fn icon_options(category: &str, icon: &str, text: &str) -> (r: DisplayOptions)
    ensures
        r.category@ == category@,
        r.display_icon@ == icon@,
        r.display_text@ == text@,
{
    let mut options = DisplayOptions::new(String::from_str(category), String::from_str(text));
    options.display_icon = String::from_str(icon);
    options
}

/// Starts a docker-compose project, or one service of it.
#[derive(Clone, Debug)]
pub struct Start {
    pub use_sudo: bool,
}

pub open spec fn start_message(compose_file: Seq<char>, service: Option<Seq<char>>, use_sudo: bool) -> Seq<char> {
    let base = "docker-compose -f "@ + compose_file + " start"@;
    let line = match service {
        Some(s) => base + " "@ + s,
        None => base,
    };
    with_sudo(line, use_sudo)
}

impl Start {
    /// `use_sudo` is on unless the settings give it another value than `"true"`.
    pub fn new(settings: &SettingsMap) -> (r: Start)
        ensures
            r.use_sudo == (!settings_map(settings@).contains_key("use_sudo"@) || settings_map(settings@)["use_sudo"@]
                == "true"@),
    {
        proof {
            reveal_strlit("true");
        }
        let use_sudo = match get_setting(settings, "use_sudo") {
            Some(value) => *value == String::from_str("true"),
            None => true,
        };
        Start { use_sudo }
    }

    /// The first parameter is the compose file; the second, if given, the service.
    pub fn connector_message(&self, parameters: &Vec<String>) -> (r: Result<String, LkError>)
        ensures
            parameters@.len() == 0 <==> r is Err,
            r matches Ok(m) ==> m@ == start_message(
                parameters@[0]@,
                if parameters@.len() > 1 {
                    Some(parameters@[1]@)
                } else {
                    None
                },
                self.use_sudo,
            ),
    {
        if parameters.len() == 0 {
            return Err(LkError::other("Missing compose file"));
        }
        let mut line = String::from_str("docker-compose -f ");
        line.append(parameters[0].as_str());
        line.append(" start");
        if parameters.len() > 1 {
            line.append(" ");
            line.append(parameters[1].as_str());
        }
        Ok(prefix_sudo(line, self.use_sudo))
    }
}

impl CommandModule for Start {
    fn get_module_spec(&self) -> ModuleSpecification {
        ModuleSpecification::new("docker-compose-start", "0.0.1")
    }

    fn get_connector_spec(&self) -> Option<ModuleSpecification> {
        Some(ssh_connector())
    }

    fn get_display_options(&self) -> DisplayOptions {
        icon_options("docker-compose", "start", "Start")
    }

    fn get_connector_messages(&self, _host: &Host, _parameters: &Vec<String>) -> Result<Vec<String>, LkError> {
        Err(LkError::other(""))
    }

    fn get_connector_message(&self, _host: &Host, parameters: &Vec<String>) -> Result<String, LkError> {
        self.connector_message(parameters)
    }

    fn process_response(&self, _host: &Host, response: &ResponseMessage) -> Result<CommandResult, LkError> {
        Ok(CommandResult::new(response.message.clone()))
    }

    fn process_responses(&self, _host: &Host, _responses: &Vec<ResponseMessage>) -> Result<CommandResult, LkError> {
        Err(LkError::other(""))
    }
}

/// A character a systemd unit name may hold.
pub open spec fn is_unit_char(c: char) -> bool {
    ('a' <= c && c <= 'z') || ('A' <= c && c <= 'Z') || ('0' <= c && c <= '9') || c == '-' || c == '_'
        || c == '.' || c == '@' || c == '\\'
}

/// A unit name: unit characters only, not empty and not starting with a dash.
pub open spec fn is_valid_unit(name: Seq<char>) -> bool {
    &&& name.len() > 0
    &&& name[0] != '-'
    &&& forall|i: int| 0 <= i < name.len() ==> is_unit_char(#[trigger] name[i])
}

pub fn valid_unit_name(name: &String) -> (r: bool)
    ensures
        r == is_valid_unit(name@),
{
    let text = name.as_str();
    let n = text.unicode_len();
    if n == 0 {
        return false;
    }
    if text.get_char(0) == '-' {
        return false;
    }
    let mut i: usize = 0;
    while i < n
        invariant
            n == name@.len(),
            text@ == name@,
            i <= n,
            forall|k: int| 0 <= k < i ==> is_unit_char(#[trigger] name@[k]),
        decreases n - i,
    {
        let c = text.get_char(i);
        let ok = ('a' <= c && c <= 'z') || ('A' <= c && c <= 'Z') || ('0' <= c && c <= '9') || c == '-' || c
            == '_' || c == '.' || c == '@' || c == '\\';
        if !ok {
            return false;
        }
        i = i + 1;
    }
    true
}

/// Masks a systemd service.
#[derive(Clone, Debug)]
pub struct Mask {}

impl Mask {
    pub fn new() -> (r: Mask) {
        Mask {}
    }

    /// `systemctl mask <unit>`, under sudo when the host is so configured; an invalid unit
    /// name is refused.
    pub fn connector_message(&self, host: &Host, parameters: &Vec<String>) -> (r: Result<String, LkError>)
        ensures
            r is Ok <==> parameters@.len() > 0 && is_valid_unit(parameters@[0]@),
            r matches Ok(m) ==> m@ == with_sudo("systemctl mask "@ + parameters@[0]@, host.spec_uses_sudo()),
    {
        if parameters.len() == 0 {
            return Err(LkError::other("Missing unit name"));
        }
        let service = &parameters[0];
        if !valid_unit_name(service) {
            return Err(LkError::other_p("Invalid unit name", service.as_str()));
        }
        let mut line = String::from_str("systemctl mask ");
        line.append(service.as_str());
        Ok(prefix_sudo(line, host.uses_sudo()))
    }

    /// Any output means the unit could not be masked.
    pub fn result_of(&self, response: &ResponseMessage) -> (r: CommandResult)
        ensures
            r.message == response.message,
            r.criticality == (if response.message@.len() > 0 {
                Criticality::Error
            } else {
                Criticality::Normal
            }),
    {
        if response.message.as_str().is_empty() {
            CommandResult::new(response.message.clone())
        } else {
            CommandResult::new_error(response.message.clone())
        }
    }
}

impl CommandModule for Mask {
    fn get_module_spec(&self) -> ModuleSpecification {
        ModuleSpecification::new("systemd-service-mask", "0.0.1")
    }

    fn get_connector_spec(&self) -> Option<ModuleSpecification> {
        Some(ssh_connector())
    }

    fn get_display_options(&self) -> DisplayOptions {
        icon_options("systemd", "cancel", "Mask")
    }

    fn get_connector_messages(&self, _host: &Host, _parameters: &Vec<String>) -> Result<Vec<String>, LkError> {
        Err(LkError::other(""))
    }

    fn get_connector_message(&self, host: &Host, parameters: &Vec<String>) -> Result<String, LkError> {
        self.connector_message(host, parameters)
    }

    fn process_response(&self, _host: &Host, response: &ResponseMessage) -> Result<CommandResult, LkError> {
        Ok(self.result_of(response))
    }

    fn process_responses(&self, _host: &Host, _responses: &Vec<ResponseMessage>) -> Result<CommandResult, LkError> {
        Err(LkError::other(""))
    }
}

/// Shuts a host down.
#[derive(Clone, Debug)]
pub struct Shutdown {}

impl Shutdown {
    pub fn new() -> (r: Shutdown) {
        Shutdown {}
    }

    /// `poweroff`, under sudo when the host is so configured; only on Linux.
    pub fn connector_message(&self, host: &Host) -> (r: Result<String, LkError>)
        ensures
            r is Ok <==> host.platform.os@ == "linux"@,
            r matches Ok(m) ==> m@ == with_sudo("poweroff"@, host.spec_uses_sudo()),
            r matches Err(e) ==> e.kind == crate::error::ErrorKind::UnsupportedPlatform,
    {
        proof {
            reveal_strlit("linux");
        }
        if host.platform.os == String::from_str("linux") {
            Ok(prefix_sudo(String::from_str("poweroff"), host.uses_sudo()))
        } else {
            Err(LkError::unsupported_platform())
        }
    }

    /// Any output is shown as a warning.
    pub fn result_of(&self, response: &ResponseMessage) -> (r: CommandResult)
        ensures
            r.message == response.message,
            r.criticality == (if response.message@.len() > 0 {
                Criticality::Warning
            } else {
                Criticality::Normal
            }),
    {
        if response.message.as_str().is_empty() {
            CommandResult::new(response.message.clone())
        } else {
            CommandResult::new_with_level(response.message.clone(), Criticality::Warning)
        }
    }
}

impl CommandModule for Shutdown {
    fn get_module_spec(&self) -> ModuleSpecification {
        ModuleSpecification::new("shutdown", "0.0.1")
    }

    fn get_connector_spec(&self) -> Option<ModuleSpecification> {
        Some(ssh_connector())
    }

    fn get_display_options(&self) -> DisplayOptions {
        icon_options("host", "shutdown", "Shut down")
    }

    fn get_connector_messages(&self, _host: &Host, _parameters: &Vec<String>) -> Result<Vec<String>, LkError> {
        Err(LkError::other(""))
    }

    fn get_connector_message(&self, host: &Host, _parameters: &Vec<String>) -> Result<String, LkError> {
        self.connector_message(host)
    }

    fn process_response(&self, _host: &Host, response: &ResponseMessage) -> Result<CommandResult, LkError> {
        Ok(self.result_of(response))
    }

    fn process_responses(&self, _host: &Host, _responses: &Vec<ResponseMessage>) -> Result<CommandResult, LkError> {
        Err(LkError::other(""))
    }
}

/// Shows the system journal.
#[derive(Clone, Debug)]
pub struct Logs {}

/// The journal command: the first parameter selects a unit (`"all"` for every unit, `"dmesg"`
/// for kernel messages), the second a pattern to grep for; empty parameters are ignored.
pub open spec fn logs_message(unit: Seq<char>, pattern: Seq<char>) -> Seq<char> {
    let base = "sudo journalctl -q -n 400"@;
    let with_unit = if unit.len() == 0 {
        base
    } else if unit == "all"@ {
        base + " "@
    } else if unit == "dmesg"@ {
        base + " --dmesg"@
    } else {
        base + " -u "@ + unit
    };
    if pattern.len() == 0 {
        with_unit
    } else {
        with_unit + " -g "@ + pattern
    }
}

impl Logs {
    pub fn new() -> (r: Logs) {
        Logs {}
    }

    pub fn connector_message(&self, parameters: &Vec<String>) -> (r: String)
        ensures
            r@ == logs_message(
                if parameters@.len() > 0 {
                    parameters@[0]@
                } else {
                    Seq::empty()
                },
                if parameters@.len() > 1 {
                    parameters@[1]@
                } else {
                    Seq::empty()
                },
            ),
    {
        proof {
            reveal_strlit("all");
            reveal_strlit("dmesg");
        }
        let mut line = String::from_str("sudo journalctl -q -n 400");
        if parameters.len() > 0 && !parameters[0].as_str().is_empty() {
            let unit = &parameters[0];
            if *unit == String::from_str("all") {
                line.append(" ");
            } else if *unit == String::from_str("dmesg") {
                line.append(" --dmesg");
            } else {
                line.append(" -u ");
                line.append(unit.as_str());
            }
        }
        if parameters.len() > 1 && !parameters[1].as_str().is_empty() {
            line.append(" -g ");
            line.append(parameters[1].as_str());
        }
        line
    }
}

impl CommandModule for Logs {
    fn get_module_spec(&self) -> ModuleSpecification {
        ModuleSpecification::new("logs", "0.0.1")
    }

    fn get_connector_spec(&self) -> Option<ModuleSpecification> {
        Some(ssh_connector())
    }

    fn get_display_options(&self) -> DisplayOptions {
        icon_options("host", "view-document", "Show logs")
    }

    fn get_connector_messages(&self, _host: &Host, _parameters: &Vec<String>) -> Result<Vec<String>, LkError> {
        Err(LkError::other(""))
    }

    fn get_connector_message(&self, _host: &Host, parameters: &Vec<String>) -> Result<String, LkError> {
        Ok(self.connector_message(parameters))
    }

    fn process_response(&self, _host: &Host, response: &ResponseMessage) -> Result<CommandResult, LkError> {
        Ok(CommandResult::new(response.message.clone()))
    }

    fn process_responses(&self, _host: &Host, _responses: &Vec<ResponseMessage>) -> Result<CommandResult, LkError> {
        Err(LkError::other(""))
    }
}

pub open spec fn is_digit(c: char) -> bool {
    '0' <= c && c <= '9'
}

/// The number that the decimal digits `s` spell.
pub open spec fn digits_value(s: Seq<char>) -> nat
    decreases s.len(),
{
    if s.len() == 0 {
        0
    } else {
        digits_value(s.drop_last()) * 10 + ((s.last() as nat) - ('0' as nat)) as nat
    }
}

/// The major version of a dotted version string: the number before the first dot, when that
/// part is a non-empty run of digits.
pub open spec fn major_version(version: Seq<char>) -> Option<nat> {
    let first = split_on(version, '.')[0];
    if first.len() > 0 && forall|i: int| 0 <= i < first.len() ==> is_digit(#[trigger] first[i]) {
        Some(digits_value(first))
    } else {
        None
    }
}

/// Read the major version of `version`, saturated at `u64::MAX`.
pub fn read_major_version(version: &String) -> (r: Option<u64>)
    ensures
        r is Some <==> major_version(version@) is Some,
        r matches Some(n) ==> n as nat == (if major_version(version@)->0 > u64::MAX {
            u64::MAX as nat
        } else {
            major_version(version@)->0
        }),
{
    let parts = split_text(version.as_str(), '.');
    proof {
        crate::monitoring_modules::lemma_split_on_not_empty(version@, '.');
    }
    let first = parts[0].as_str();
    assert(first@ == split_on(version@, '.')[0]);
    let n = first.unicode_len();
    if n == 0 {
        return None;
    }
    let mut value: u64 = 0;
    let mut i: usize = 0;
    assert(first@.subrange(0, 0) =~= Seq::<char>::empty());
    while i < n
        invariant
            n == first@.len(),
            first@ == split_on(version@, '.')[0],
            i <= n,
            forall|k: int| 0 <= k < i ==> is_digit(#[trigger] first@[k]),
            value as nat == (if digits_value(first@.subrange(0, i as int)) > u64::MAX {
                u64::MAX as nat
            } else {
                digits_value(first@.subrange(0, i as int))
            }),
        decreases n - i,
    {
        let c = first.get_char(i);
        if !('0' <= c && c <= '9') {
            assert(!is_digit(first@[i as int]));
            return None;
        }
        let ghost before = digits_value(first@.subrange(0, i as int));
        proof {
            let s = first@.subrange(0, i as int + 1);
            assert(s.drop_last() =~= first@.subrange(0, i as int));
            assert(s.last() == c);
            assert(digits_value(s) == before * 10 + ((c as nat) - ('0' as nat)) as nat);
            assert(before * 10 >= before) by (nonlinear_arith);
        }
        let digit = (c as u32 - '0' as u32) as u64;
        if value < u64::MAX {
            value = match value.checked_mul(10) {
                Some(tens) => match tens.checked_add(digit) {
                    Some(next) => next,
                    None => u64::MAX,
                },
                None => {
                    assert(before * 10 > u64::MAX) by (nonlinear_arith)
                        requires
                            before == value as nat,
                            value as nat * 10 > u64::MAX,
                    ;
                    u64::MAX
                },
            };
        }
        i = i + 1;
    }
    assert(first@.subrange(0, n as int) =~= first@);
    Some(value)
}

/// The host runs `flavor` at major version `major` or later.
pub open spec fn flavor_at_least(platform: PlatformInfo, flavor: Seq<char>, major: nat) -> bool {
    platform.os_flavor@ == flavor && (major_version(platform.os_version@) matches Some(m) && m >= major)
}

pub fn is_flavor_at_least(platform: &PlatformInfo, flavor: &str, major: u64) -> (r: bool)
    ensures
        r == flavor_at_least(*platform, flavor@, major as nat),
{
    if platform.os_flavor != String::from_str(flavor) {
        return false;
    }
    match read_major_version(&platform.os_version) {
        Some(m) => m >= major,
        None => false,
    }
}

/// Upgrades one package.
#[derive(Clone, Debug)]
pub struct Update {}

/// Package upgrades go through `apt` on Debian 8 to 10.
pub open spec fn apt_supported(platform: PlatformInfo) -> bool {
    flavor_at_least(platform, "debian"@, 8) && !flavor_at_least(platform, "debian"@, 11)
}

impl Update {
    pub fn new() -> (r: Update) {
        Update {}
    }

    /// `apt --only-upgrade -y install <package>` on a Linux host where apt is supported, under
    /// sudo when the host is so configured; an empty command elsewhere.
    pub fn connector_message(&self, host: &Host, parameters: &Vec<String>) -> (r: Result<String, LkError>)
        ensures
            r is Ok <==> parameters@.len() > 0,
            r matches Ok(m) ==> m@ == (if host.platform.os@ == "linux"@ && apt_supported(host.platform) {
                with_sudo("apt --only-upgrade -y install "@ + parameters@[0]@, host.spec_uses_sudo())
            } else {
                Seq::empty()
            }),
    {
        proof {
            reveal_strlit("linux");
        }
        if parameters.len() == 0 {
            return Err(LkError::other("Missing package name"));
        }
        if host.platform.os == String::from_str("linux") && is_flavor_at_least(&host.platform, "debian", 8)
            && !is_flavor_at_least(&host.platform, "debian", 11) {
            let mut line = String::from_str("apt --only-upgrade -y install ");
            line.append(parameters[0].as_str());
            Ok(prefix_sudo(line, host.uses_sudo()))
        } else {
            Ok(String::new())
        }
    }

    /// A non-zero return code is an error.
    pub fn result_of(&self, response: &ResponseMessage) -> (r: CommandResult)
        ensures
            r.message == response.message,
            r.criticality == (if response.return_code == 0 {
                Criticality::Normal
            } else {
                Criticality::Error
            }),
    {
        if response.return_code == 0 {
            CommandResult::new(response.message.clone())
        } else {
            CommandResult::new_error(response.message.clone())
        }
    }
}

impl CommandModule for Update {
    fn get_module_spec(&self) -> ModuleSpecification {
        ModuleSpecification::new("linux-packages-update", "0.0.1")
    }

    fn get_connector_spec(&self) -> Option<ModuleSpecification> {
        Some(ssh_connector())
    }

    fn get_display_options(&self) -> DisplayOptions {
        icon_options("packages", "update", "Upgrade package")
    }

    fn get_connector_messages(&self, _host: &Host, _parameters: &Vec<String>) -> Result<Vec<String>, LkError> {
        Err(LkError::other(""))
    }

    fn get_connector_message(&self, host: &Host, parameters: &Vec<String>) -> Result<String, LkError> {
        self.connector_message(host, parameters)
    }

    fn process_response(&self, _host: &Host, response: &ResponseMessage) -> Result<CommandResult, LkError> {
        Ok(self.result_of(response))
    }

    fn process_responses(&self, _host: &Host, _responses: &Vec<ResponseMessage>) -> Result<CommandResult, LkError> {
        Err(LkError::other(""))
    }
}

} // verus!
