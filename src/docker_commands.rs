use vstd::prelude::*;

use crate::command_modules::{
    flavor_at_least, icon_options, is_flavor_at_least, prefix_sudo, ssh_connector, with_sudo,
};
use crate::data::{CommandResult, DisplayOptions, Host, ModuleSpecification, PlatformInfo, ResponseMessage};
use crate::error::LkError;
use crate::modules::{strings_view, CommandModule};
use crate::monitoring_modules::{split_text, text_lines, trim_leading, trim_start, lemma_split_on_not_empty};

verus! {

/// Hosts whose docker ships the `docker-compose` command: Debian 8 or Ubuntu 20 on.
pub open spec fn has_compose_command(platform: PlatformInfo) -> bool {
    flavor_at_least(platform, "debian"@, 8) || flavor_at_least(platform, "ubuntu"@, 20)
}

/// Hosts whose docker has compose as a subcommand: RedHat 8 or CentOS 8 on.
pub open spec fn has_compose_subcommand(platform: PlatformInfo) -> bool {
    flavor_at_least(platform, "redhat"@, 8) || flavor_at_least(platform, "centos"@, 8)
}

fn compose_command(platform: &PlatformInfo) -> (r: bool)
    ensures
        r == has_compose_command(*platform),
{
    is_flavor_at_least(platform, "debian", 8) || is_flavor_at_least(platform, "ubuntu", 20)
}

fn compose_subcommand(platform: &PlatformInfo) -> (r: bool)
    ensures
        r == has_compose_subcommand(*platform),
{
    is_flavor_at_least(platform, "redhat", 8) || is_flavor_at_least(platform, "centos", 8)
}

pub open spec fn is_alphanumeric(s: Seq<char>) -> bool {
    s.len() > 0 && forall|i: int|
        0 <= i < s.len() ==> ('a' <= #[trigger] s[i] && s[i] <= 'z') || ('A' <= s[i] && s[i] <= 'Z') || (
        '0' <= s[i] && s[i] <= '9')
}

pub fn alphanumeric(text: &String) -> (r: bool)
    ensures
        r == is_alphanumeric(text@),
{
    let s = text.as_str();
    let n = s.unicode_len();
    if n == 0 {
        return false;
    }
    let mut i: usize = 0;
    while i < n
        invariant
            n == text@.len(),
            s@ == text@,
            i <= n,
            forall|k: int|
                0 <= k < i ==> ('a' <= #[trigger] text@[k] && text@[k] <= 'z') || ('A' <= text@[k] && text@[k]
                    <= 'Z') || ('0' <= text@[k] && text@[k] <= '9'),
        decreases n - i,
    {
        let c = s.get_char(i);
        if !(('a' <= c && c <= 'z') || ('A' <= c && c <= 'Z') || ('0' <= c && c <= '9')) {
            return false;
        }
        i = i + 1;
    }
    true
}

/// Opens a shell inside a docker container.
#[derive(Clone, Debug)]
pub struct Shell {}

impl Shell {
    pub fn new() -> (r: Shell) {
        Shell {}
    }

    /// `docker exec -it <container> /bin/sh` for an alphanumeric container id, on hosts with a
    /// known docker; under sudo when the host is so configured.
    pub fn connector_message(&self, host: &Host, parameters: &Vec<String>) -> (r: Result<String, LkError>)
        ensures
            r is Ok <==> parameters@.len() > 0 && is_alphanumeric(parameters@[0]@) && (has_compose_command(
                host.platform,
            ) || has_compose_subcommand(host.platform)),
            r matches Ok(m) ==> m@ == with_sudo(
                "docker exec -it "@ + parameters@[0]@ + " /bin/sh"@,
                host.spec_uses_sudo(),
            ),
    {
        if parameters.len() == 0 {
            return Err(LkError::other("Missing container id"));
        }
        let target = &parameters[0];
        if !alphanumeric(target) {
            return Err(LkError::other_p("Invalid container ID", target.as_str()));
        }
        if !(compose_command(&host.platform) || compose_subcommand(&host.platform)) {
            return Err(LkError::unsupported_platform());
        }
        let mut line = String::from_str("docker exec -it ");
        line.append(target.as_str());
        line.append(" /bin/sh");
        Ok(prefix_sudo(line, host.uses_sudo()))
    }
}

impl CommandModule for Shell {
    fn get_module_spec(&self) -> ModuleSpecification {
        ModuleSpecification::new("docker-shell", "0.0.1")
    }

    fn get_connector_spec(&self) -> Option<ModuleSpecification> {
        Some(ssh_connector())
    }

    fn get_display_options(&self) -> DisplayOptions {
        let mut options = icon_options("docker-containers", "terminal", "Open shell inside");
        options.action = crate::data::UIAction::Terminal;
        options
    }

    fn get_connector_messages(&self, _host: &Host, _parameters: &Vec<String>) -> Result<Vec<String>, LkError> {
        Err(LkError::other(""))
    }

    fn get_connector_message(&self, host: &Host, parameters: &Vec<String>) -> Result<String, LkError> {
        self.connector_message(host, parameters)
    }

    fn process_response(&self, _host: &Host, response: &ResponseMessage) -> Result<CommandResult, LkError> {
        Ok(CommandResult::new_info(response.message.clone()))
    }

    fn process_responses(&self, _host: &Host, _responses: &Vec<ResponseMessage>) -> Result<CommandResult, LkError> {
        Err(LkError::other(""))
    }
}

/// What follows the first `|` of `line`, if it has one.
pub open spec fn after_first_bar(line: Seq<char>) -> Option<Seq<char>>
    decreases line.len(),
{
    if line.len() == 0 {
        None
    } else if line[0] == '|' {
        Some(line.drop_first())
    } else {
        after_first_bar(line.drop_first())
    }
}

/// A log line without the `service_1  |` prefix that docker-compose puts before it.
pub open spec fn without_service_prefix(line: Seq<char>) -> Seq<char> {
    match after_first_bar(line) {
        Some(rest) => trim_leading(rest),
        None => line,
    }
}

/// The lines joined with newlines.
pub open spec fn join_lines(lines: Seq<Seq<char>>) -> Seq<char>
    decreases lines.len(),
{
    if lines.len() == 0 {
        Seq::empty()
    } else if lines.len() == 1 {
        lines[0]
    } else {
        join_lines(lines.drop_last()) + "\n"@ + lines.last()
    }
}

pub fn strip_service_prefix(line: &String) -> (r: String)
    ensures
        r@ == without_service_prefix(line@),
{
    let text = line.as_str();
    let n = text.unicode_len();
    let mut i: usize = 0;
    assert(line@.subrange(0, n as int) =~= line@);
    while i < n && text.get_char(i) != '|'
        invariant
            n == line@.len(),
            text@ == line@,
            i <= n,
            after_first_bar(line@) == after_first_bar(line@.subrange(i as int, n as int)),
        decreases n - i,
    {
        proof {
            let rest = line@.subrange(i as int, n as int);
            assert(rest.drop_first() =~= line@.subrange(i as int + 1, n as int));
        }
        i = i + 1;
    }
    if i == n {
        assert(line@.subrange(n as int, n as int) =~= Seq::<char>::empty());
        return line.clone();
    }
    proof {
        let rest = line@.subrange(i as int, n as int);
        assert(rest[0] == '|');
        assert(rest.drop_first() =~= line@.subrange(i as int + 1, n as int));
    }
    trim_start(text.substring_char(i + 1, n))
}

/// Shows the logs of a docker-compose project.
#[derive(Clone, Debug)]
pub struct Logs {}

pub open spec fn compose_logs_message(platform: PlatformInfo, compose_file: Seq<char>, project: Seq<char>) -> Seq<char> {
    let tool = if has_compose_command(platform) {
        "docker-compose"@
    } else {
        "docker compose"@
    };
    tool + " -f "@ + compose_file + " logs --tail 400 --no-color -t "@ + project
}

impl Logs {
    pub fn new() -> (r: Logs) {
        Logs {}
    }

    /// The last 400 log lines of project `parameters[1]` of compose file `parameters[0]`.
    pub fn connector_message(&self, host: &Host, parameters: &Vec<String>) -> (r: Result<String, LkError>)
        ensures
            r is Ok <==> parameters@.len() > 1 && (has_compose_command(host.platform) || has_compose_subcommand(
                host.platform,
            )),
            r matches Ok(m) ==> m@ == with_sudo(
                compose_logs_message(host.platform, parameters@[0]@, parameters@[1]@),
                host.spec_uses_sudo(),
            ),
    {
        if parameters.len() < 2 {
            return Err(LkError::other("Missing compose file or project"));
        }
        let mut line = if compose_command(&host.platform) {
            String::from_str("docker-compose")
        } else if compose_subcommand(&host.platform) {
            String::from_str("docker compose")
        } else {
            return Err(LkError::unsupported_platform());
        };
        line.append(" -f ");
        line.append(parameters[0].as_str());
        line.append(" logs --tail 400 --no-color -t ");
        line.append(parameters[1].as_str());
        Ok(prefix_sudo(line, host.uses_sudo()))
    }

    /// The log text without the service prefixes, as a hidden result; an error response is an error.
    pub fn logs_of(&self, response: &ResponseMessage) -> (r: Result<CommandResult, LkError>)
        ensures
            r is Err <==> response.is_error,
            r matches Ok(c) ==> c.hidden && c.message@ == join_lines(
                text_lines(response.message@).map_values(|l: Seq<char>| without_service_prefix(l)),
            ),
    {
        if response.is_error {
            return Err(LkError::other(response.message.as_str()));
        }
        let mut lines = split_text(response.message.as_str(), '\n');
        proof {
            lemma_split_on_not_empty(response.message@, '\n');
        }
        if lines[lines.len() - 1].as_str().is_empty() {
            let ghost before = lines@;
            lines.pop();
            assert(strings_view(lines@) =~= strings_view(before).drop_last());
        }
        let ghost ls = text_lines(response.message@);
        let ghost stripped = ls.map_values(|l: Seq<char>| without_service_prefix(l));
        assert(strings_view(lines@) == ls);
        let mut text = String::new();
        let mut k: usize = 0;
        while k < lines.len()
            invariant
                strings_view(lines@) == ls,
                stripped == ls.map_values(|l: Seq<char>| without_service_prefix(l)),
                k <= lines@.len(),
                text@ == join_lines(stripped.subrange(0, k as int)),
            decreases lines@.len() - k,
        {
            let piece = strip_service_prefix(&lines[k]);
            proof {
                let s = stripped.subrange(0, k as int + 1);
                assert(s.drop_last() =~= stripped.subrange(0, k as int));
                assert(s.last() == without_service_prefix(ls[k as int]));
                assert(ls[k as int] == lines@[k as int]@);
                if k == 0 {
                    assert(s.len() == 1);
                }
            }
            if k > 0 {
                text.append("\n");
            }
            text.append(piece.as_str());
            k = k + 1;
        }
        assert(stripped.subrange(0, lines@.len() as int) =~= stripped);
        Ok(CommandResult::new_hidden(text))
    }
}

impl CommandModule for Logs {
    fn get_module_spec(&self) -> ModuleSpecification {
        ModuleSpecification::new("docker-compose-logs", "0.0.1")
    }

    fn get_connector_spec(&self) -> Option<ModuleSpecification> {
        Some(ssh_connector())
    }

    fn get_display_options(&self) -> DisplayOptions {
        icon_options("docker-compose", "view-document", "Logs")
    }

    fn get_connector_messages(&self, _host: &Host, _parameters: &Vec<String>) -> Result<Vec<String>, LkError> {
        Err(LkError::other(""))
    }

    fn get_connector_message(&self, host: &Host, parameters: &Vec<String>) -> Result<String, LkError> {
        self.connector_message(host, parameters)
    }

    fn process_response(&self, _host: &Host, response: &ResponseMessage) -> Result<CommandResult, LkError> {
        self.logs_of(response)
    }

    fn process_responses(&self, _host: &Host, _responses: &Vec<ResponseMessage>) -> Result<CommandResult, LkError> {
        Err(LkError::other(""))
    }
}

} // verus!
