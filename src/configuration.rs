use vstd::prelude::*;

use crate::data::HostSetting;
use crate::modules::strings_view;

verus! {

/// `i` is the first entry with key `id`.
pub open spec fn first_keyed<T>(entries: Seq<(String, T)>, id: Seq<char>, i: int) -> bool {
    0 <= i < entries.len() && entries[i].0@ == id && forall|k: int| 0 <= k < i ==> (#[trigger] entries[k]).0@ != id
}

/// A string-keyed settings map, as ordered key/value pairs.
pub type SettingsMap = Vec<(String, String)>;

/// The map that `settings` stands for: a later pair overrides an earlier one with the same key.
pub open spec fn settings_map(settings: Seq<(String, String)>) -> Map<Seq<char>, Seq<char>>
    decreases settings.len(),
{
    if settings.len() == 0 {
        Map::empty()
    } else {
        settings_map(settings.drop_last()).insert(settings.last().0@, settings.last().1@)
    }
}

/// Look a setting up by key.
pub fn get_setting<'a>(settings: &'a SettingsMap, key: &str) -> (r: Option<&'a String>)
    ensures
        r is Some <==> settings_map(settings@).contains_key(key@),
        r matches Some(v) ==> v@ == settings_map(settings@)[key@],
{
    let key_s = String::from_str(key);
    let mut found: Option<usize> = None;
    let mut i: usize = 0;
    while i < settings.len()
        invariant
            key_s@ == key@,
            i <= settings@.len(),
            found matches Some(j) ==> j < i && settings_map(settings@.subrange(0, i as int)).contains_key(key@)
                && settings_map(settings@.subrange(0, i as int))[key@] == settings@[j as int].1@,
            found is None ==> !settings_map(settings@.subrange(0, i as int)).contains_key(key@),
        decreases settings@.len() - i,
    {
        proof {
            let prefix = settings@.subrange(0, i as int + 1);
            assert(prefix.drop_last() =~= settings@.subrange(0, i as int));
            assert(prefix.last() == settings@[i as int]);
        }
        if settings[i].0 == key_s {
            found = Some(i);
        }
        i = i + 1;
    }
    assert(settings@.subrange(0, settings@.len() as int) =~= settings@);
    match found {
        Some(j) => Some(&settings[j].1),
        None => None,
    }
}

/// Merge `source` into `target` key by key; the values of `source` win.
pub fn merge_settings(target: &mut SettingsMap, source: &SettingsMap)
    ensures
        settings_map(final(target)@) == settings_map(old(target)@).union_prefer_right(settings_map(source@)),
{
    let ghost start = settings_map(target@);
    let mut i: usize = 0;
    while i < source.len()
        invariant
            i <= source@.len(),
            settings_map(target@) == start.union_prefer_right(settings_map(source@.subrange(0, i as int))),
        decreases source@.len() - i,
    {
        let ghost before = target@;
        let key = source[i].0.clone();
        let value = source[i].1.clone();
        target.push((key, value));
        proof {
            let prefix = source@.subrange(0, i as int + 1);
            assert(prefix.drop_last() =~= source@.subrange(0, i as int));
            assert(target@.drop_last() =~= before);
            assert(settings_map(target@) =~= start.union_prefer_right(settings_map(prefix)));
        }
        i = i + 1;
    }
    assert(source@.subrange(0, source@.len() as int) =~= source@);
}

#[derive(Clone, Debug)]
pub struct Preferences {
    pub use_sandbox_mode: bool,
    pub refresh_hosts_on_start: bool,
    pub use_remote_editor: bool,
    pub sudo_remote_editor: bool,
    pub remote_text_editor: String,
    /// Command that launches a text editor; "internal" selects the built-in one.
    pub text_editor: String,
    /// Command that launches a terminal; "internal" selects the built-in one.
    pub terminal: String,
    pub terminal_args: Vec<String>,
}

impl Preferences {
    pub fn new() -> (r: Preferences)
        ensures
            !r.sudo_remote_editor,
            r.remote_text_editor@.len() == 0,
            r.text_editor@.len() == 0,
            r.terminal@.len() == 0,
            r.terminal_args@.len() == 0,
    {
        Preferences {
            use_sandbox_mode: false,
            refresh_hosts_on_start: false,
            use_remote_editor: false,
            sudo_remote_editor: false,
            remote_text_editor: String::new(),
            text_editor: String::new(),
            terminal: String::new(),
            terminal_args: Vec::new(),
        }
    }
}

#[derive(Clone, Debug)]
pub struct Category {
    pub priority: u16,
    pub icon: Option<String>,
    pub color: Option<String>,
    pub command_order: Option<Vec<String>>,
    pub monitor_order: Option<Vec<String>>,
    pub collapsible_commands: Option<Vec<String>>,
}

#[derive(Clone, Debug)]
pub struct DisplayOptions {
    pub qtquick_style: String,
    pub hide_info_notifications: bool,
    pub categories: Vec<(String, Category)>,
}

#[derive(Clone, Copy, Debug, PartialEq, Eq, Structural)]
pub struct CacheSettings {
    /// Enable the cache; when false the cache file is kept empty.
    pub enable_cache: bool,
    /// Provide an initial value from the cache before the up-to-date one arrives.
    pub provide_initial_value: bool,
    /// How long initial values stay valid.
    pub initial_value_time_to_live: u64,
    /// Answer from the cache alone when it has a value.
    pub prefer_cache: bool,
    /// How long cache entries stay valid.
    pub time_to_live: u64,
}

#[derive(Clone, Debug)]
pub struct Configuration {
    pub preferences: Preferences,
    pub display_options: Option<DisplayOptions>,
    pub cache_settings: CacheSettings,
}

impl Configuration {
    pub fn version_is_latest(version: &str) -> (r: bool)
        ensures
            r == (version@ == "latest"@),
    {
        proof {
            reveal_strlit("latest");
        }
        let latest = String::from_str("latest");
        String::from_str(version) == latest
    }
}

#[derive(Clone, Debug)]
pub struct MonitorConfig {
    pub version: String,
    pub enabled: Option<bool>,
    pub is_critical: Option<bool>,
    pub settings: SettingsMap,
}

impl MonitorConfig {
    pub fn default_version() -> (r: String)
        ensures
            r@ == "latest"@,
    {
        String::from_str("latest")
    }

    pub fn default_enabled() -> (r: Option<bool>)
        ensures
            r == Some(true),
    {
        Some(true)
    }

    /// A monitor is enabled unless its configuration says otherwise.
    pub fn is_enabled(enabled: &Option<bool>) -> (r: bool)
        ensures
            r == match enabled {
                Some(b) => *b,
                None => true,
            },
    {
        match enabled {
            Some(b) => *b,
            None => true,
        }
    }

    pub fn new() -> (r: MonitorConfig)
        ensures
            r.version@ == "latest"@,
            r.enabled == Some(true),
            r.is_critical.is_none(),
            r.settings@.len() == 0,
    {
        MonitorConfig {
            version: MonitorConfig::default_version(),
            enabled: MonitorConfig::default_enabled(),
            is_critical: None,
            settings: Vec::new(),
        }
    }
}

#[derive(Clone, Debug)]
pub struct CommandConfig {
    pub version: String,
    pub settings: SettingsMap,
}

impl CommandConfig {
    pub fn default_version() -> (r: String)
        ensures
            r@ == "latest"@,
    {
        String::from_str("latest")
    }

    pub fn new() -> (r: CommandConfig)
        ensures
            r.version@ == "latest"@,
            r.settings@.len() == 0,
    {
        CommandConfig { version: CommandConfig::default_version(), settings: Vec::new() }
    }
}

#[derive(Clone, Debug)]
pub struct ConnectorConfig {
    pub settings: SettingsMap,
}

#[derive(Clone, Debug)]
pub struct HostSettings {
    pub groups: Vec<String>,
    pub address: String,
    pub fqdn: String,
    pub settings: Vec<HostSetting>,
    pub monitors: Vec<(String, MonitorConfig)>,
    pub commands: Vec<(String, CommandConfig)>,
    pub connectors: Vec<(String, ConnectorConfig)>,
}

impl HostSettings {
    pub fn default_address() -> (r: String)
        ensures
            r@ == "0.0.0.0"@,
    {
        String::from_str("0.0.0.0")
    }

    pub fn is_default_address(address: &String) -> (r: bool)
        ensures
            r == (address@ == "0.0.0.0"@),
    {
        proof {
            reveal_strlit("0.0.0.0");
        }
        *address == String::from_str("0.0.0.0")
    }

    /// The settings of connector `connector_id`, if the host configures it.
    pub fn connector_settings(&self, connector_id: &str) -> (r: Option<&SettingsMap>)
        ensures
            r is None ==> forall|i: int|
                0 <= i < self.connectors@.len() ==> (#[trigger] self.connectors@[i]).0@ != connector_id@,
            r matches Some(m) ==> exists|i: int|
                first_keyed(self.connectors@, connector_id@, i) && *m == (#[trigger] self.connectors@[i]).1.settings,
    {
        let id = String::from_str(connector_id);
        let mut i: usize = 0;
        while i < self.connectors.len()
            invariant
                id@ == connector_id@,
                i <= self.connectors@.len(),
                forall|k: int| 0 <= k < i ==> (#[trigger] self.connectors@[k]).0@ != connector_id@,
            decreases self.connectors@.len() - i,
        {
            if self.connectors[i].0 == id {
                return Some(&self.connectors[i].1.settings);
            }
            i = i + 1;
        }
        None
    }
}

#[derive(Clone, Debug)]
pub struct ConfigGroup {
    pub host_settings: Vec<HostSetting>,
    pub monitors: Vec<(String, MonitorConfig)>,
    pub commands: Vec<(String, CommandConfig)>,
    pub connectors: Vec<(String, ConnectorConfig)>,
}

#[derive(Clone, Debug)]
pub struct Groups {
    pub groups: Vec<(String, ConfigGroup)>,
}

#[derive(Clone, Debug)]
pub struct Hosts {
    pub hosts: Vec<(String, HostSettings)>,
}

impl Hosts {
    pub fn new() -> (r: Hosts)
        ensures
            r.hosts@.len() == 0,
    {
        Hosts { hosts: Vec::new() }
    }

    pub fn find(&self, host_id: &String) -> (r: Option<usize>)
        ensures
            r matches Some(i) ==> first_keyed(self.hosts@, host_id@, i as int),
            r is None ==> forall|k: int| 0 <= k < self.hosts@.len() ==> (#[trigger] self.hosts@[k]).0@ != host_id@,
    {
        let mut i: usize = 0;
        while i < self.hosts.len()
            invariant
                i <= self.hosts@.len(),
                forall|k: int| 0 <= k < i ==> (#[trigger] self.hosts@[k]).0@ != host_id@,
            decreases self.hosts@.len() - i,
        {
            if self.hosts[i].0 == *host_id {
                return Some(i);
            }
            i = i + 1;
        }
        None
    }
}

pub open spec fn has_key<T>(entries: Seq<(String, T)>, id: Seq<char>) -> bool {
    exists|i: int| 0 <= i < entries.len() && (#[trigger] entries[i]).0@ == id
}

/// The position of the first entry with key `id`.
pub fn find_keyed<T>(entries: &Vec<(String, T)>, id: &String) -> (r: Option<usize>)
    ensures
        r matches Some(i) ==> i < entries@.len() && entries@[i as int].0@ == id@ && forall|k: int|
            0 <= k < i ==> (#[trigger] entries@[k]).0@ != id@,
        r is None ==> !has_key(entries@, id@),
{
    let mut i: usize = 0;
    while i < entries.len()
        invariant
            i <= entries@.len(),
            forall|k: int| 0 <= k < i ==> (#[trigger] entries@[k]).0@ != id@,
        decreases entries@.len() - i,
    {
        if entries[i].0 == *id {
            return Some(i);
        }
        i = i + 1;
    }
    None
}

/// `merged` is `base` with the group's version and criticality and the group's settings over its own.
pub open spec fn monitor_merged(base: MonitorConfig, group: MonitorConfig, merged: MonitorConfig) -> bool {
    &&& merged.version@ == group.version@
    &&& merged.enabled == base.enabled
    &&& merged.is_critical == group.is_critical
    &&& settings_map(merged.settings@) == settings_map(base.settings@).union_prefer_right(
        settings_map(group.settings@),
    )
}

/// `merged` is `base` with the group's version and the group's settings over its own.
pub open spec fn command_merged(base: CommandConfig, group: CommandConfig, merged: CommandConfig) -> bool {
    &&& merged.version@ == group.version@
    &&& settings_map(merged.settings@) == settings_map(base.settings@).union_prefer_right(
        settings_map(group.settings@),
    )
}

/// `merged` has the group's settings over `base`'s.
pub open spec fn connector_merged(base: ConnectorConfig, group: ConnectorConfig, merged: ConnectorConfig) -> bool {
    settings_map(merged.settings@) == settings_map(base.settings@).union_prefer_right(
        settings_map(group.settings@),
    )
}

/// After merging entry `id`, it sits where it was (or at the end, for a new one) and every
/// other entry is unchanged; `merged(i)` says what the entry at `i` became.
pub open spec fn keyed_updated<T>(
    before: Seq<(String, T)>,
    after: Seq<(String, T)>,
    id: Seq<char>,
    merged: spec_fn(int) -> bool,
) -> bool {
    exists|i: int|
        0 <= i < after.len() && #[trigger] after[i].0@ == id && i <= before.len() && merged(i) && (i
            < before.len() ==> before[i].0@ == id && after.len() == before.len()) && (i == before.len()
            ==> !has_key(before, id) && after.len() == before.len() + 1) && forall|k: int|
            0 <= k < before.len() && k != i ==> after[k] == before[k]
}

/// Merge a group's configuration of monitor `id` into the host's monitors; a monitor the
/// host does not have yet starts from a fresh configuration.
pub fn merge_monitor(monitors: &mut Vec<(String, MonitorConfig)>, id: &String, group: &MonitorConfig)
    ensures
        keyed_updated(
            old(monitors)@,
            final(monitors)@,
            id@,
            |i: int|
                if i < old(monitors)@.len() {
                    monitor_merged(old(monitors)@[i].1, *group, final(monitors)@[i].1)
                } else {
                    final(monitors)@[i].1.enabled == Some(true) && final(monitors)@[i].1.version@
                        == group.version@ && final(monitors)@[i].1.is_critical == group.is_critical
                        && settings_map(final(monitors)@[i].1.settings@) == settings_map(group.settings@)
                },
        ),
{
    match find_keyed(monitors, id) {
        Some(i) => {
            let ghost before = monitors@;
            monitors[i].1.version = group.version.clone();
            monitors[i].1.is_critical = group.is_critical;
            merge_settings(&mut monitors[i].1.settings, &group.settings);
            assert(monitors@[i as int].0@ == id@);
            assert(forall|k: int| 0 <= k < before.len() && k != i ==> monitors@[k] == before[k]);
        },
        None => {
            let mut merged = MonitorConfig::new();
            merged.version = group.version.clone();
            merged.is_critical = group.is_critical;
            merge_settings(&mut merged.settings, &group.settings);
            assert(settings_map(merged.settings@) =~= settings_map(group.settings@));
            monitors.push((id.clone(), merged));
            let ghost n = old(monitors)@.len() as int;
            assert(monitors@[n].0@ == id@);
        },
    }
}

/// Merge a group's configuration of command `id` into the host's commands.
pub fn merge_command(commands: &mut Vec<(String, CommandConfig)>, id: &String, group: &CommandConfig)
    ensures
        keyed_updated(
            old(commands)@,
            final(commands)@,
            id@,
            |i: int|
                if i < old(commands)@.len() {
                    command_merged(old(commands)@[i].1, *group, final(commands)@[i].1)
                } else {
                    final(commands)@[i].1.version@ == group.version@ && settings_map(
                        final(commands)@[i].1.settings@,
                    ) == settings_map(group.settings@)
                },
        ),
{
    match find_keyed(commands, id) {
        Some(i) => {
            let ghost before = commands@;
            commands[i].1.version = group.version.clone();
            merge_settings(&mut commands[i].1.settings, &group.settings);
            assert(commands@[i as int].0@ == id@);
            assert(forall|k: int| 0 <= k < before.len() && k != i ==> commands@[k] == before[k]);
        },
        None => {
            let mut merged = CommandConfig::new();
            merged.version = group.version.clone();
            merge_settings(&mut merged.settings, &group.settings);
            assert(settings_map(merged.settings@) =~= settings_map(group.settings@));
            commands.push((id.clone(), merged));
            let ghost n = old(commands)@.len() as int;
            assert(commands@[n].0@ == id@);
        },
    }
}

/// Merge a group's configuration of connector `id` into the host's connectors.
pub fn merge_connector(connectors: &mut Vec<(String, ConnectorConfig)>, id: &String, group: &ConnectorConfig)
    ensures
        keyed_updated(
            old(connectors)@,
            final(connectors)@,
            id@,
            |i: int|
                if i < old(connectors)@.len() {
                    connector_merged(old(connectors)@[i].1, *group, final(connectors)@[i].1)
                } else {
                    settings_map(final(connectors)@[i].1.settings@) == settings_map(group.settings@)
                },
        ),
{
    match find_keyed(connectors, id) {
        Some(i) => {
            let ghost before = connectors@;
            merge_settings(&mut connectors[i].1.settings, &group.settings);
            assert(connectors@[i as int].0@ == id@);
            assert(forall|k: int| 0 <= k < before.len() && k != i ==> connectors@[k] == before[k]);
        },
        None => {
            let mut merged = ConnectorConfig { settings: Vec::new() };
            merge_settings(&mut merged.settings, &group.settings);
            assert(settings_map(merged.settings@) =~= settings_map(group.settings@));
            connectors.push((id.clone(), merged));
            let ghost n = old(connectors)@.len() as int;
            assert(connectors@[n].0@ == id@);
        },
    }
}

/// Merging an entry keeps every key and adds the merged one.
pub proof fn lemma_keyed_updated_keeps_keys<T>(
    before: Seq<(String, T)>,
    after: Seq<(String, T)>,
    id: Seq<char>,
    merged: spec_fn(int) -> bool,
)
    requires
        keyed_updated(before, after, id, merged),
    ensures
        has_key(after, id),
        forall|key: Seq<char>| has_key(before, key) ==> has_key(after, key),
{
    let i = choose|i: int|
        0 <= i < after.len() && #[trigger] after[i].0@ == id && i <= before.len() && merged(i) && (i
            < before.len() ==> before[i].0@ == id && after.len() == before.len()) && (i == before.len()
            ==> !has_key(before, id) && after.len() == before.len() + 1) && forall|k: int|
            0 <= k < before.len() && k != i ==> after[k] == before[k];
    assert forall|key: Seq<char>| has_key(before, key) implies has_key(after, key) by {
        let k = choose|k: int| 0 <= k < before.len() && (#[trigger] before[k]).0@ == key;
        if k != i {
            assert(after[k] == before[k]);
        } else {
            assert(after[i].0@ == key);
        }
    }
}

/// Every monitor, command and connector that `group` configures is configured on `host`.
pub open spec fn covers_group(host: HostSettings, group: ConfigGroup) -> bool {
    &&& forall|j: int| 0 <= j < group.monitors@.len() ==> has_key(host.monitors@, (#[trigger] group.monitors@[j]).0@)
    &&& forall|j: int| 0 <= j < group.commands@.len() ==> has_key(host.commands@, (#[trigger] group.commands@[j]).0@)
    &&& forall|j: int|
        0 <= j < group.connectors@.len() ==> has_key(host.connectors@, (#[trigger] group.connectors@[j]).0@)
}

/// Whatever `before` configured, `after` still configures.
pub open spec fn keeps_keys(before: HostSettings, after: HostSettings) -> bool {
    &&& forall|key: Seq<char>| has_key(before.monitors@, key) ==> has_key(after.monitors@, key)
    &&& forall|key: Seq<char>| has_key(before.commands@, key) ==> has_key(after.commands@, key)
    &&& forall|key: Seq<char>| has_key(before.connectors@, key) ==> has_key(after.connectors@, key)
}

/// Every setting of `group_settings` has its value in `settings`.
pub open spec fn settings_include(settings: Seq<(String, String)>, group_settings: Seq<(String, String)>) -> bool {
    forall|key: Seq<char>|
        #[trigger] settings_map(group_settings).contains_key(key) ==> settings_map(settings).contains_key(key)
            && settings_map(settings)[key] == settings_map(group_settings)[key]
}

/// The host's monitor `g.0` has the group's version and criticality and the group's settings.
pub open spec fn monitor_applied(entries: Seq<(String, MonitorConfig)>, g: (String, MonitorConfig)) -> bool {
    exists|i: int| 0 <= i < entries.len() && (#[trigger] entries[i]).0@ == g.0@ && monitor_applied_at(entries, i, g)
}

pub open spec fn monitor_applied_at(entries: Seq<(String, MonitorConfig)>, i: int, g: (String, MonitorConfig)) -> bool {
    entries[i].1.version@ == g.1.version@ && entries[i].1.is_critical == g.1.is_critical && settings_include(
        entries[i].1.settings@,
        g.1.settings@,
    )
}

pub open spec fn unique_keys<T>(entries: Seq<(String, T)>) -> bool {
    forall|a: int, b: int| 0 <= a < b < entries.len() ==> (#[trigger] entries[a]).0@ != (#[trigger] entries[b]).0@
}

/// The first `n` monitors of a group are applied.
#[verifier::opaque]
pub open spec fn monitors_applied(entries: Seq<(String, MonitorConfig)>, group: Seq<(String, MonitorConfig)>, n: int) -> bool {
    forall|m: int| 0 <= m < n ==> monitor_applied(entries, #[trigger] group[m])
}

proof fn lemma_monitor_step(
    before: Seq<(String, MonitorConfig)>,
    after: Seq<(String, MonitorConfig)>,
    group: Seq<(String, MonitorConfig)>,
    n: int,
)
    requires
        0 <= n < group.len(),
        unique_keys(group),
        monitors_applied(before, group, n),
        keyed_updated(
            before,
            after,
            group[n].0@,
            |i: int|
                if i < before.len() {
                    monitor_merged(before[i].1, group[n].1, after[i].1)
                } else {
                    after[i].1.enabled == Some(true) && after[i].1.version@ == group[n].1.version@
                        && after[i].1.is_critical == group[n].1.is_critical && settings_map(after[i].1.settings@)
                        == settings_map(group[n].1.settings@)
                },
        ),
    ensures
        monitors_applied(after, group, n + 1),
{
    reveal(monitors_applied);
    let id = group[n].0@;
    let g = group[n].1;
    let u = choose|u: int|
        0 <= u < after.len() && #[trigger] after[u].0@ == id && u <= before.len() && (if u < before.len() {
            monitor_merged(before[u].1, g, after[u].1)
        } else {
            after[u].1.enabled == Some(true) && after[u].1.version@ == g.version@ && after[u].1.is_critical
                == g.is_critical && settings_map(after[u].1.settings@) == settings_map(g.settings@)
        }) && (u < before.len() ==> before[u].0@ == id && after.len() == before.len()) && (u == before.len()
            ==> !has_key(before, id) && after.len() == before.len() + 1) && forall|k: int|
            0 <= k < before.len() && k != u ==> after[k] == before[k];
    assert forall|m: int| 0 <= m < n + 1 implies monitor_applied(after, #[trigger] group[m]) by {
        if m == n {
            assert(settings_include(after[u].1.settings@, g.settings@));
        } else {
            assert(group[m].0@ != id);
            let i = choose|i: int|
                0 <= i < before.len() && (#[trigger] before[i]).0@ == group[m].0@ && before[i].1.version@
                    == group[m].1.version@ && before[i].1.is_critical == group[m].1.is_critical && settings_include(
                    before[i].1.settings@,
                    group[m].1.settings@,
                );
            assert(i != u);
            assert(after[i] == before[i]);
        }
    }
}

/// The host's command `g.0` has the group's version and the group's settings.
pub open spec fn command_applied(entries: Seq<(String, CommandConfig)>, g: (String, CommandConfig)) -> bool {
    exists|i: int| 0 <= i < entries.len() && (#[trigger] entries[i]).0@ == g.0@ && command_applied_at(entries, i, g)
}

pub open spec fn command_applied_at(entries: Seq<(String, CommandConfig)>, i: int, g: (String, CommandConfig)) -> bool {
    entries[i].1.version@ == g.1.version@ && settings_include(entries[i].1.settings@, g.1.settings@)
}

#[verifier::opaque]
pub open spec fn commands_applied(entries: Seq<(String, CommandConfig)>, group: Seq<(String, CommandConfig)>, n: int) -> bool {
    forall|m: int| 0 <= m < n ==> command_applied(entries, #[trigger] group[m])
}

proof fn lemma_command_step(
    before: Seq<(String, CommandConfig)>,
    after: Seq<(String, CommandConfig)>,
    group: Seq<(String, CommandConfig)>,
    n: int,
)
    requires
        0 <= n < group.len(),
        unique_keys(group),
        commands_applied(before, group, n),
        keyed_updated(
            before,
            after,
            group[n].0@,
            |i: int|
                if i < before.len() {
                    command_merged(before[i].1, group[n].1, after[i].1)
                } else {
                    after[i].1.version@ == group[n].1.version@ && settings_map(after[i].1.settings@)
                        == settings_map(group[n].1.settings@)
                },
        ),
    ensures
        commands_applied(after, group, n + 1),
{
    reveal(commands_applied);
    let id = group[n].0@;
    let g = group[n].1;
    let u = choose|u: int|
        0 <= u < after.len() && #[trigger] after[u].0@ == id && u <= before.len() && (if u < before.len() {
            command_merged(before[u].1, g, after[u].1)
        } else {
            after[u].1.version@ == g.version@ && settings_map(after[u].1.settings@) == settings_map(g.settings@)
        }) && (u < before.len() ==> before[u].0@ == id && after.len() == before.len()) && (u == before.len()
            ==> !has_key(before, id) && after.len() == before.len() + 1) && forall|k: int|
            0 <= k < before.len() && k != u ==> after[k] == before[k];
    assert forall|m: int| 0 <= m < n + 1 implies command_applied(after, #[trigger] group[m]) by {
        if m == n {
            assert(settings_include(after[u].1.settings@, g.settings@));
        } else {
            assert(group[m].0@ != id);
            let i = choose|i: int|
                0 <= i < before.len() && (#[trigger] before[i]).0@ == group[m].0@ && before[i].1.version@
                    == group[m].1.version@ && settings_include(before[i].1.settings@, group[m].1.settings@);
            assert(i != u);
            assert(after[i] == before[i]);
        }
    }
}

/// The host's connector `g.0` has the group's settings.
pub open spec fn connector_applied(entries: Seq<(String, ConnectorConfig)>, g: (String, ConnectorConfig)) -> bool {
    exists|i: int| 0 <= i < entries.len() && (#[trigger] entries[i]).0@ == g.0@ && connector_applied_at(entries, i, g)
}

pub open spec fn connector_applied_at(entries: Seq<(String, ConnectorConfig)>, i: int, g: (String, ConnectorConfig)) -> bool {
    settings_include(entries[i].1.settings@, g.1.settings@)
}

#[verifier::opaque]
pub open spec fn connectors_applied(entries: Seq<(String, ConnectorConfig)>, group: Seq<(String, ConnectorConfig)>, n: int) -> bool {
    forall|m: int| 0 <= m < n ==> connector_applied(entries, #[trigger] group[m])
}

proof fn lemma_connector_step(
    before: Seq<(String, ConnectorConfig)>,
    after: Seq<(String, ConnectorConfig)>,
    group: Seq<(String, ConnectorConfig)>,
    n: int,
)
    requires
        0 <= n < group.len(),
        unique_keys(group),
        connectors_applied(before, group, n),
        keyed_updated(
            before,
            after,
            group[n].0@,
            |i: int|
                if i < before.len() {
                    connector_merged(before[i].1, group[n].1, after[i].1)
                } else {
                    settings_map(after[i].1.settings@) == settings_map(group[n].1.settings@)
                },
        ),
    ensures
        connectors_applied(after, group, n + 1),
{
    reveal(connectors_applied);
    let id = group[n].0@;
    let g = group[n].1;
    let u = choose|u: int|
        0 <= u < after.len() && #[trigger] after[u].0@ == id && u <= before.len() && (if u < before.len() {
            connector_merged(before[u].1, g, after[u].1)
        } else {
            settings_map(after[u].1.settings@) == settings_map(g.settings@)
        }) && (u < before.len() ==> before[u].0@ == id && after.len() == before.len()) && (u == before.len()
            ==> !has_key(before, id) && after.len() == before.len() + 1) && forall|k: int|
            0 <= k < before.len() && k != u ==> after[k] == before[k];
    assert forall|m: int| 0 <= m < n + 1 implies connector_applied(after, #[trigger] group[m]) by {
        if m == n {
            assert(settings_include(after[u].1.settings@, g.settings@));
        } else {
            assert(group[m].0@ != id);
            let i = choose|i: int|
                0 <= i < before.len() && (#[trigger] before[i]).0@ == group[m].0@ && settings_include(
                    before[i].1.settings@,
                    group[m].1.settings@,
                );
            assert(i != u);
            assert(after[i] == before[i]);
        }
    }
}

/// Merging another entry leaves an applied monitor applied.
proof fn lemma_monitor_kept(
    before: Seq<(String, MonitorConfig)>,
    after: Seq<(String, MonitorConfig)>,
    id: Seq<char>,
    merged: spec_fn(int) -> bool,
    x: (String, MonitorConfig),
)
    requires
        keyed_updated(before, after, id, merged),
        x.0@ != id,
        monitor_applied(before, x),
    ensures
        monitor_applied(after, x),
{
    let u = choose|u: int|
        0 <= u < after.len() && #[trigger] after[u].0@ == id && u <= before.len() && merged(u) && (u < before.len()
            ==> before[u].0@ == id && after.len() == before.len()) && (u == before.len() ==> !has_key(before, id)
            && after.len() == before.len() + 1) && forall|k: int| 0 <= k < before.len() && k != u ==> after[k] == before[k];
    let i = choose|i: int| 0 <= i < before.len() && (#[trigger] before[i]).0@ == x.0@ && monitor_applied_at(before, i, x);
    assert(i != u);
    assert(after[i] == before[i]);
    assert(monitor_applied_at(after, i, x));
}

/// Merging another entry leaves an applied command applied.
proof fn lemma_command_kept(
    before: Seq<(String, CommandConfig)>,
    after: Seq<(String, CommandConfig)>,
    id: Seq<char>,
    merged: spec_fn(int) -> bool,
    x: (String, CommandConfig),
)
    requires
        keyed_updated(before, after, id, merged),
        x.0@ != id,
        command_applied(before, x),
    ensures
        command_applied(after, x),
{
    let u = choose|u: int|
        0 <= u < after.len() && #[trigger] after[u].0@ == id && u <= before.len() && merged(u) && (u < before.len()
            ==> before[u].0@ == id && after.len() == before.len()) && (u == before.len() ==> !has_key(before, id)
            && after.len() == before.len() + 1) && forall|k: int| 0 <= k < before.len() && k != u ==> after[k] == before[k];
    let i = choose|i: int| 0 <= i < before.len() && (#[trigger] before[i]).0@ == x.0@ && command_applied_at(before, i, x);
    assert(i != u);
    assert(after[i] == before[i]);
    assert(command_applied_at(after, i, x));
}

/// Merging another entry leaves an applied connector applied.
proof fn lemma_connector_kept(
    before: Seq<(String, ConnectorConfig)>,
    after: Seq<(String, ConnectorConfig)>,
    id: Seq<char>,
    merged: spec_fn(int) -> bool,
    x: (String, ConnectorConfig),
)
    requires
        keyed_updated(before, after, id, merged),
        x.0@ != id,
        connector_applied(before, x),
    ensures
        connector_applied(after, x),
{
    let u = choose|u: int|
        0 <= u < after.len() && #[trigger] after[u].0@ == id && u <= before.len() && merged(u) && (u < before.len()
            ==> before[u].0@ == id && after.len() == before.len()) && (u == before.len() ==> !has_key(before, id)
            && after.len() == before.len() + 1) && forall|k: int| 0 <= k < before.len() && k != u ==> after[k] == before[k];
    let i = choose|i: int| 0 <= i < before.len() && (#[trigger] before[i]).0@ == x.0@ && connector_applied_at(before, i, x);
    assert(i != u);
    assert(after[i] == before[i]);
    assert(connector_applied_at(after, i, x));
}

/// Apply one group to a host: the group's host settings replace the host's when the group has
/// any; its monitors, commands and connectors are merged into the host's.
pub fn merge_group_into_host(host: &mut HostSettings, group: &ConfigGroup)
    ensures
        final(host).groups == old(host).groups,
        final(host).address == old(host).address,
        final(host).fqdn == old(host).fqdn,
        final(host).settings@ == (if group.host_settings@.len() > 0 {
            group.host_settings@
        } else {
            old(host).settings@
        }),
        covers_group(*final(host), *group),
        keeps_keys(*old(host), *final(host)),
        unique_keys(group.monitors@) ==> monitors_applied(final(host).monitors@, group.monitors@, group.monitors@.len() as int),
        forall|x: (String, MonitorConfig)|
            monitor_applied(old(host).monitors@, x) && !has_key(group.monitors@, x.0@) ==> #[trigger] monitor_applied(final(host).monitors@, x),
        unique_keys(group.commands@) ==> commands_applied(final(host).commands@, group.commands@, group.commands@.len() as int),
        forall|x: (String, CommandConfig)|
            command_applied(old(host).commands@, x) && !has_key(group.commands@, x.0@) ==> #[trigger] command_applied(final(host).commands@, x),
        unique_keys(group.connectors@) ==> connectors_applied(final(host).connectors@, group.connectors@, group.connectors@.len() as int),
        forall|x: (String, ConnectorConfig)|
            connector_applied(old(host).connectors@, x) && !has_key(group.connectors@, x.0@) ==> #[trigger] connector_applied(final(host).connectors@, x),
{
    if group.host_settings.len() > 0 {
        let mut copy = Vec::new();
        let mut k: usize = 0;
        while k < group.host_settings.len()
            invariant
                k <= group.host_settings@.len(),
                copy@ == group.host_settings@.subrange(0, k as int),
            decreases group.host_settings@.len() - k,
        {
            copy.push(group.host_settings[k]);
            assert(copy@ =~= group.host_settings@.subrange(0, k as int + 1));
            k = k + 1;
        }
        assert(copy@ =~= group.host_settings@);
        host.settings = copy;
    }
    assert(monitors_applied(host.monitors@, group.monitors@, 0)) by {
        reveal(monitors_applied);
    }
    assert(commands_applied(host.commands@, group.commands@, 0)) by {
        reveal(commands_applied);
    }
    assert(connectors_applied(host.connectors@, group.connectors@, 0)) by {
        reveal(connectors_applied);
    }
    let ghost start = *host;
    let mut j: usize = 0;
    while j < group.monitors.len()
        invariant
            j <= group.monitors@.len(),
            host.groups == start.groups,
            host.address == start.address,
            host.fqdn == start.fqdn,
            host.settings == start.settings,
            host.commands == start.commands,
            host.connectors == start.connectors,
            start.monitors == old(host).monitors && start.commands == old(host).commands
                && start.connectors == old(host).connectors,
            forall|key: Seq<char>| has_key(start.monitors@, key) ==> has_key(host.monitors@, key),
            forall|m: int| 0 <= m < j ==> has_key(host.monitors@, (#[trigger] group.monitors@[m]).0@),
            forall|x: (String, MonitorConfig)|
                monitor_applied(start.monitors@, x) && !has_key(group.monitors@.subrange(0, j as int), x.0@) ==> #[trigger] monitor_applied(host.monitors@, x),
            unique_keys(group.monitors@) ==> monitors_applied(host.monitors@, group.monitors@, j as int),
            commands_applied(start.commands@, group.commands@, 0),
            connectors_applied(start.connectors@, group.connectors@, 0),
        decreases group.monitors@.len() - j,
    {
        let ghost before = host.monitors@;
        merge_monitor(&mut host.monitors, &group.monitors[j].0, &group.monitors[j].1);
        proof {
            let ghost after = host.monitors@;
            let id = group.monitors@[j as int].0@;
            let g = group.monitors@[j as int].1;
            lemma_keyed_updated_keeps_keys(
                before,
                after,
                id,
                |i: int|
                    if i < before.len() {
                        monitor_merged(before[i].1, g, after[i].1)
                    } else {
                        after[i].1.enabled == Some(true) && after[i].1.version@ == g.version@
                            && after[i].1.is_critical == g.is_critical && settings_map(after[i].1.settings@)
                            == settings_map(g.settings@)
                    },
            );

            assert forall|x: (String, MonitorConfig)|
                monitor_applied(start.monitors@, x) && !has_key(group.monitors@.subrange(0, j as int + 1), x.0@) implies #[trigger] monitor_applied(host.monitors@, x) by {
                assert(group.monitors@.subrange(0, j as int + 1)[j as int] == group.monitors@[j as int]);
                assert(x.0@ != id);
                assert forall|m: int| 0 <= m < j implies (#[trigger] group.monitors@.subrange(0, j as int)[m]).0@ != x.0@ by {
                    assert(group.monitors@.subrange(0, j as int)[m] == group.monitors@.subrange(0, j as int + 1)[m]);
                }
                lemma_monitor_kept(before, after, id, |i: int|
                    if i < before.len() {
                        monitor_merged(before[i].1, g, after[i].1)
                    } else {
                        after[i].1.enabled == Some(true) && after[i].1.version@ == g.version@
                            && after[i].1.is_critical == g.is_critical && settings_map(after[i].1.settings@)
                            == settings_map(g.settings@)
                    }, x);
            }            if unique_keys(group.monitors@) {
                lemma_monitor_step(before, after, group.monitors@, j as int);
            }
        }
        j = j + 1;
    }
    assert(group.monitors@.subrange(0, group.monitors@.len() as int) =~= group.monitors@);
    let ghost mid = *host;
    let mut j: usize = 0;
    while j < group.commands.len()
        invariant
            j <= group.commands@.len(),
            host.groups == start.groups,
            host.address == start.address,
            host.fqdn == start.fqdn,
            host.settings == start.settings,
            host.monitors == mid.monitors,
            forall|x: (String, MonitorConfig)|
                monitor_applied(start.monitors@, x) && !has_key(group.monitors@, x.0@) ==> #[trigger] monitor_applied(mid.monitors@, x),
            host.connectors == start.connectors,
            unique_keys(group.monitors@) ==> monitors_applied(mid.monitors@, group.monitors@, group.monitors@.len() as int),
            start.monitors == old(host).monitors && start.commands == old(host).commands
                && start.connectors == old(host).connectors,
            forall|key: Seq<char>| has_key(start.monitors@, key) ==> has_key(mid.monitors@, key),
            forall|key: Seq<char>| has_key(start.commands@, key) ==> has_key(host.commands@, key),
            forall|m: int| 0 <= m < j ==> has_key(host.commands@, (#[trigger] group.commands@[m]).0@),
            forall|x: (String, CommandConfig)|
                command_applied(start.commands@, x) && !has_key(group.commands@.subrange(0, j as int), x.0@) ==> #[trigger] command_applied(host.commands@, x),
            unique_keys(group.commands@) ==> commands_applied(host.commands@, group.commands@, j as int),
            connectors_applied(start.connectors@, group.connectors@, 0),
            forall|m: int| 0 <= m < group.monitors@.len() ==> has_key(mid.monitors@, (#[trigger] group.monitors@[m]).0@),
        decreases group.commands@.len() - j,
    {
        let ghost before = host.commands@;
        merge_command(&mut host.commands, &group.commands[j].0, &group.commands[j].1);
        proof {
            let ghost after = host.commands@;
            let id = group.commands@[j as int].0@;
            let g = group.commands@[j as int].1;
            lemma_keyed_updated_keeps_keys(
                before,
                after,
                id,
                |i: int|
                    if i < before.len() {
                        command_merged(before[i].1, g, after[i].1)
                    } else {
                        after[i].1.version@ == g.version@ && settings_map(after[i].1.settings@)
                            == settings_map(g.settings@)
                    },
            );

            assert forall|x: (String, CommandConfig)|
                command_applied(start.commands@, x) && !has_key(group.commands@.subrange(0, j as int + 1), x.0@) implies #[trigger] command_applied(host.commands@, x) by {
                assert(group.commands@.subrange(0, j as int + 1)[j as int] == group.commands@[j as int]);
                assert(x.0@ != id);
                assert forall|m: int| 0 <= m < j implies (#[trigger] group.commands@.subrange(0, j as int)[m]).0@ != x.0@ by {
                    assert(group.commands@.subrange(0, j as int)[m] == group.commands@.subrange(0, j as int + 1)[m]);
                }
                lemma_command_kept(before, after, id, |i: int|
                    if i < before.len() {
                        command_merged(before[i].1, g, after[i].1)
                    } else {
                        after[i].1.version@ == g.version@ && settings_map(after[i].1.settings@)
                            == settings_map(g.settings@)
                    }, x);
            }            if unique_keys(group.commands@) {
                lemma_command_step(before, after, group.commands@, j as int);
            }
        }
        j = j + 1;
    }
    assert(group.commands@.subrange(0, group.commands@.len() as int) =~= group.commands@);
    let ghost mid2 = *host;
    let mut j: usize = 0;
    while j < group.connectors.len()
        invariant
            j <= group.connectors@.len(),
            host.groups == start.groups,
            host.address == start.address,
            host.fqdn == start.fqdn,
            host.settings == start.settings,
            host.monitors == mid.monitors,
            host.commands == mid2.commands,
            forall|x: (String, MonitorConfig)|
                monitor_applied(start.monitors@, x) && !has_key(group.monitors@, x.0@) ==> #[trigger] monitor_applied(mid.monitors@, x),
            forall|x: (String, CommandConfig)|
                command_applied(start.commands@, x) && !has_key(group.commands@, x.0@) ==> #[trigger] command_applied(mid2.commands@, x),
            unique_keys(group.monitors@) ==> monitors_applied(mid.monitors@, group.monitors@, group.monitors@.len() as int),
            start.monitors == old(host).monitors && start.commands == old(host).commands
                && start.connectors == old(host).connectors,
            forall|key: Seq<char>| has_key(start.monitors@, key) ==> has_key(mid.monitors@, key),
            forall|key: Seq<char>| has_key(start.commands@, key) ==> has_key(mid2.commands@, key),
            forall|m: int| 0 <= m < group.monitors@.len() ==> has_key(mid.monitors@, (#[trigger] group.monitors@[m]).0@),
            forall|m: int| 0 <= m < group.commands@.len() ==> has_key(mid2.commands@, (#[trigger] group.commands@[m]).0@),
            forall|key: Seq<char>| has_key(start.connectors@, key) ==> has_key(host.connectors@, key),
            forall|m: int| 0 <= m < j ==> has_key(host.connectors@, (#[trigger] group.connectors@[m]).0@),
            forall|x: (String, ConnectorConfig)|
                connector_applied(start.connectors@, x) && !has_key(group.connectors@.subrange(0, j as int), x.0@) ==> #[trigger] connector_applied(host.connectors@, x),
            unique_keys(group.connectors@) ==> connectors_applied(host.connectors@, group.connectors@, j as int),
            unique_keys(group.commands@) ==> commands_applied(mid2.commands@, group.commands@, group.commands@.len() as int),
        decreases group.connectors@.len() - j,
    {
        let ghost before = host.connectors@;
        merge_connector(&mut host.connectors, &group.connectors[j].0, &group.connectors[j].1);
        proof {
            let ghost after = host.connectors@;
            let id = group.connectors@[j as int].0@;
            let g = group.connectors@[j as int].1;
            lemma_keyed_updated_keeps_keys(
                before,
                after,
                id,
                |i: int|
                    if i < before.len() {
                        connector_merged(before[i].1, g, after[i].1)
                    } else {
                        settings_map(after[i].1.settings@) == settings_map(g.settings@)
                    },
            );

            assert forall|x: (String, ConnectorConfig)|
                connector_applied(start.connectors@, x) && !has_key(group.connectors@.subrange(0, j as int + 1), x.0@) implies #[trigger] connector_applied(host.connectors@, x) by {
                assert(group.connectors@.subrange(0, j as int + 1)[j as int] == group.connectors@[j as int]);
                assert(x.0@ != id);
                assert forall|m: int| 0 <= m < j implies (#[trigger] group.connectors@.subrange(0, j as int)[m]).0@ != x.0@ by {
                    assert(group.connectors@.subrange(0, j as int)[m] == group.connectors@.subrange(0, j as int + 1)[m]);
                }
                lemma_connector_kept(before, after, id, |i: int|
                    if i < before.len() {
                        connector_merged(before[i].1, g, after[i].1)
                    } else {
                        settings_map(after[i].1.settings@) == settings_map(g.settings@)
                    }, x);
            }            if unique_keys(group.connectors@) {
                lemma_connector_step(before, after, group.connectors@, j as int);
            }
        }
        j = j + 1;
    }
    assert(group.connectors@.subrange(0, group.connectors@.len() as int) =~= group.connectors@);
}

/// Every group that a host refers to exists.
pub open spec fn references_known_groups(hosts: Seq<(String, HostSettings)>, groups: Seq<(String, ConfigGroup)>) -> bool {
    forall|i: int, k: int|
        0 <= i < hosts.len() && 0 <= k < hosts[i].1.groups@.len() ==> has_key(
            groups,
            (#[trigger] hosts[i].1.groups@[k])@,
        )
}

/// `gi` is the first group named `name`.
pub open spec fn first_group(groups: Seq<(String, ConfigGroup)>, name: Seq<char>, gi: int) -> bool {
    0 <= gi < groups.len() && groups[gi].0@ == name && forall|k: int| 0 <= k < gi ==> (#[trigger] groups[k]).0@ != name
}

/// The group that a host's reference `name` means: the first group of that name.
pub open spec fn referenced(groups: Seq<(String, ConfigGroup)>, name: Seq<char>) -> ConfigGroup {
    groups[choose|gi: int| first_group(groups, name, gi)].1
}

proof fn lemma_referenced(groups: Seq<(String, ConfigGroup)>, name: Seq<char>, gi: int)
    requires
        first_group(groups, name, gi),
    ensures
        referenced(groups, name) == groups[gi].1,
{
    let gj = choose|gj: int| first_group(groups, name, gj);
    if gj < gi {
        assert(groups[gj].0@ != name);
    } else if gj > gi {
        assert(groups[gi].0@ != name);
    }
}

/// The host settings after the first `n` referenced groups: the last of them with host
/// settings replaces the host's own.
pub open spec fn host_settings_after(
    names: Seq<String>,
    groups: Seq<(String, ConfigGroup)>,
    n: int,
    original: Seq<HostSetting>,
) -> Seq<HostSetting>
    decreases n,
{
    if n <= 0 {
        original
    } else if referenced(groups, names[n - 1]@).host_settings@.len() > 0 {
        referenced(groups, names[n - 1]@).host_settings@
    } else {
        host_settings_after(names, groups, n - 1, original)
    }
}

/// A reference after the `k`-th and before the `n`-th configures monitor `id` again.
pub open spec fn monitor_overridden(names: Seq<String>, groups: Seq<(String, ConfigGroup)>, k: int, n: int, id: Seq<char>) -> bool {
    exists|k2: int| k < k2 < n && has_key(referenced(groups, (#[trigger] names[k2])@).monitors@, id)
}

/// Every monitor that one of the first `n` referenced groups configures, and no later one of them
/// configures again, has that group's values: later groups win.
#[verifier::opaque]
pub open spec fn monitors_merged(entries: Seq<(String, MonitorConfig)>, names: Seq<String>, groups: Seq<(String, ConfigGroup)>, n: int) -> bool {
    forall|k: int, m: int|
        0 <= k < n && unique_keys(referenced(groups, names[k]@).monitors@) && 0 <= m < referenced(groups, names[k]@).monitors@.len()
            && !monitor_overridden(names, groups, k, n, referenced(groups, names[k]@).monitors@[m].0@) ==> #[trigger] monitor_applied(
            entries,
            #[trigger] referenced(groups, names[k]@).monitors@[m],
        )
}

proof fn lemma_monitors_merged_step(
    before: Seq<(String, MonitorConfig)>,
    after: Seq<(String, MonitorConfig)>,
    names: Seq<String>,
    groups: Seq<(String, ConfigGroup)>,
    n: int,
)
    requires
        0 <= n < names.len(),
        monitors_merged(before, names, groups, n),
        unique_keys(referenced(groups, names[n]@).monitors@) ==> monitors_applied(
            after,
            referenced(groups, names[n]@).monitors@,
            referenced(groups, names[n]@).monitors@.len() as int,
        ),
        forall|x: (String, MonitorConfig)|
            monitor_applied(before, x) && !has_key(referenced(groups, names[n]@).monitors@, x.0@) ==> #[trigger] monitor_applied(after, x),
    ensures
        monitors_merged(after, names, groups, n + 1),
{
    reveal(monitors_merged);
    reveal(monitors_applied);
    let g = referenced(groups, names[n]@);
    assert forall|k: int, m: int|
        0 <= k < n + 1 && unique_keys(referenced(groups, names[k]@).monitors@) && 0 <= m < referenced(groups, names[k]@).monitors@.len()
            && !monitor_overridden(names, groups, k, n + 1, referenced(groups, names[k]@).monitors@[m].0@) implies #[trigger] monitor_applied(
        after,
        #[trigger] referenced(groups, names[k]@).monitors@[m],
    ) by {
        let x = referenced(groups, names[k]@).monitors@[m];
        if k < n {
            if monitor_overridden(names, groups, k, n, x.0@) {
                let k2 = choose|k2: int| k < k2 < n && has_key(referenced(groups, (#[trigger] names[k2])@).monitors@, x.0@);
                assert(k < k2 < n + 1 && has_key(referenced(groups, names[k2]@).monitors@, x.0@));
            }
            if has_key(g.monitors@, x.0@) {
                assert(k < n < n + 1 && has_key(referenced(groups, names[n]@).monitors@, x.0@));
            }
        }
    }
}

/// A reference after the `k`-th and before the `n`-th configures command `id` again.
pub open spec fn command_overridden(names: Seq<String>, groups: Seq<(String, ConfigGroup)>, k: int, n: int, id: Seq<char>) -> bool {
    exists|k2: int| k < k2 < n && has_key(referenced(groups, (#[trigger] names[k2])@).commands@, id)
}

/// Every command that one of the first `n` referenced groups configures, and no later one of them
/// configures again, has that group's values: later groups win.
#[verifier::opaque]
pub open spec fn commands_merged(entries: Seq<(String, CommandConfig)>, names: Seq<String>, groups: Seq<(String, ConfigGroup)>, n: int) -> bool {
    forall|k: int, m: int|
        0 <= k < n && unique_keys(referenced(groups, names[k]@).commands@) && 0 <= m < referenced(groups, names[k]@).commands@.len()
            && !command_overridden(names, groups, k, n, referenced(groups, names[k]@).commands@[m].0@) ==> #[trigger] command_applied(
            entries,
            #[trigger] referenced(groups, names[k]@).commands@[m],
        )
}

proof fn lemma_commands_merged_step(
    before: Seq<(String, CommandConfig)>,
    after: Seq<(String, CommandConfig)>,
    names: Seq<String>,
    groups: Seq<(String, ConfigGroup)>,
    n: int,
)
    requires
        0 <= n < names.len(),
        commands_merged(before, names, groups, n),
        unique_keys(referenced(groups, names[n]@).commands@) ==> commands_applied(
            after,
            referenced(groups, names[n]@).commands@,
            referenced(groups, names[n]@).commands@.len() as int,
        ),
        forall|x: (String, CommandConfig)|
            command_applied(before, x) && !has_key(referenced(groups, names[n]@).commands@, x.0@) ==> #[trigger] command_applied(after, x),
    ensures
        commands_merged(after, names, groups, n + 1),
{
    reveal(commands_merged);
    reveal(commands_applied);
    let g = referenced(groups, names[n]@);
    assert forall|k: int, m: int|
        0 <= k < n + 1 && unique_keys(referenced(groups, names[k]@).commands@) && 0 <= m < referenced(groups, names[k]@).commands@.len()
            && !command_overridden(names, groups, k, n + 1, referenced(groups, names[k]@).commands@[m].0@) implies #[trigger] command_applied(
        after,
        #[trigger] referenced(groups, names[k]@).commands@[m],
    ) by {
        let x = referenced(groups, names[k]@).commands@[m];
        if k < n {
            if command_overridden(names, groups, k, n, x.0@) {
                let k2 = choose|k2: int| k < k2 < n && has_key(referenced(groups, (#[trigger] names[k2])@).commands@, x.0@);
                assert(k < k2 < n + 1 && has_key(referenced(groups, names[k2]@).commands@, x.0@));
            }
            if has_key(g.commands@, x.0@) {
                assert(k < n < n + 1 && has_key(referenced(groups, names[n]@).commands@, x.0@));
            }
        }
    }
}

/// A reference after the `k`-th and before the `n`-th configures connector `id` again.
pub open spec fn connector_overridden(names: Seq<String>, groups: Seq<(String, ConfigGroup)>, k: int, n: int, id: Seq<char>) -> bool {
    exists|k2: int| k < k2 < n && has_key(referenced(groups, (#[trigger] names[k2])@).connectors@, id)
}

/// Every connector that one of the first `n` referenced groups configures, and no later one of them
/// configures again, has that group's values: later groups win.
#[verifier::opaque]
pub open spec fn connectors_merged(entries: Seq<(String, ConnectorConfig)>, names: Seq<String>, groups: Seq<(String, ConfigGroup)>, n: int) -> bool {
    forall|k: int, m: int|
        0 <= k < n && unique_keys(referenced(groups, names[k]@).connectors@) && 0 <= m < referenced(groups, names[k]@).connectors@.len()
            && !connector_overridden(names, groups, k, n, referenced(groups, names[k]@).connectors@[m].0@) ==> #[trigger] connector_applied(
            entries,
            #[trigger] referenced(groups, names[k]@).connectors@[m],
        )
}

proof fn lemma_connectors_merged_step(
    before: Seq<(String, ConnectorConfig)>,
    after: Seq<(String, ConnectorConfig)>,
    names: Seq<String>,
    groups: Seq<(String, ConfigGroup)>,
    n: int,
)
    requires
        0 <= n < names.len(),
        connectors_merged(before, names, groups, n),
        unique_keys(referenced(groups, names[n]@).connectors@) ==> connectors_applied(
            after,
            referenced(groups, names[n]@).connectors@,
            referenced(groups, names[n]@).connectors@.len() as int,
        ),
        forall|x: (String, ConnectorConfig)|
            connector_applied(before, x) && !has_key(referenced(groups, names[n]@).connectors@, x.0@) ==> #[trigger] connector_applied(after, x),
    ensures
        connectors_merged(after, names, groups, n + 1),
{
    reveal(connectors_merged);
    reveal(connectors_applied);
    let g = referenced(groups, names[n]@);
    assert forall|k: int, m: int|
        0 <= k < n + 1 && unique_keys(referenced(groups, names[k]@).connectors@) && 0 <= m < referenced(groups, names[k]@).connectors@.len()
            && !connector_overridden(names, groups, k, n + 1, referenced(groups, names[k]@).connectors@[m].0@) implies #[trigger] connector_applied(
        after,
        #[trigger] referenced(groups, names[k]@).connectors@[m],
    ) by {
        let x = referenced(groups, names[k]@).connectors@[m];
        if k < n {
            if connector_overridden(names, groups, k, n, x.0@) {
                let k2 = choose|k2: int| k < k2 < n && has_key(referenced(groups, (#[trigger] names[k2])@).connectors@, x.0@);
                assert(k < k2 < n + 1 && has_key(referenced(groups, names[k2]@).connectors@, x.0@));
            }
            if has_key(g.connectors@, x.0@) {
                assert(k < n < n + 1 && has_key(referenced(groups, names[n]@).connectors@, x.0@));
            }
        }
    }
}

/// `after` is `before` with each of its groups applied.
pub open spec fn groups_applied(before: HostSettings, after: HostSettings, groups: Seq<(String, ConfigGroup)>) -> bool {
    &&& after.groups == before.groups
    &&& after.address == before.address
    &&& after.fqdn == before.fqdn
    &&& keeps_keys(before, after)
    &&& forall|k: int, gi: int|
        0 <= k < before.groups@.len() && first_group(groups, (#[trigger] before.groups@[k])@, gi)
            ==> covers_group(after, #[trigger] groups[gi].1)
    &&& after.settings@ == host_settings_after(before.groups@, groups, before.groups@.len() as int, before.settings@)
    &&& monitors_merged(after.monitors@, before.groups@, groups, before.groups@.len() as int)
    &&& commands_merged(after.commands@, before.groups@, groups, before.groups@.len() as int)
    &&& connectors_merged(after.connectors@, before.groups@, groups, before.groups@.len() as int)
}

proof fn lemma_covers_kept(a: HostSettings, b: HostSettings, g: ConfigGroup)
    requires
        covers_group(a, g),
        keeps_keys(a, b),
    ensures
        covers_group(b, g),
{
}

/// Apply the host's groups to it, in the order it lists them.
pub fn merge_host_groups(host: &mut HostSettings, groups: &Groups)
    requires
        forall|k: int| 0 <= k < old(host).groups@.len() ==> has_key(groups.groups@, (#[trigger] old(host).groups@[k])@),
    ensures
        groups_applied(*old(host), *final(host), groups.groups@),
{
    let mut k: usize = 0;
    proof {
        reveal(monitors_merged);
        reveal(commands_merged);
        reveal(connectors_merged);
    }
    while k < host.groups.len()
        invariant
            k <= host.groups@.len(),
            host.groups == old(host).groups,
            host.address == old(host).address,
            host.fqdn == old(host).fqdn,
            keeps_keys(*old(host), *host),
            forall|m: int| 0 <= m < old(host).groups@.len() ==> has_key(groups.groups@, (#[trigger] old(host).groups@[m])@),
            forall|m: int, gi: int|
                0 <= m < k && first_group(groups.groups@, (#[trigger] host.groups@[m])@, gi) ==> covers_group(
                    *host,
                    #[trigger] groups.groups@[gi].1,
                ),
            host.settings@ == host_settings_after(old(host).groups@, groups.groups@, k as int, old(host).settings@),
            monitors_merged(host.monitors@, old(host).groups@, groups.groups@, k as int),
            commands_merged(host.commands@, old(host).groups@, groups.groups@, k as int),
            connectors_merged(host.connectors@, old(host).groups@, groups.groups@, k as int),
        decreases host.groups@.len() - k,
    {
        let name = host.groups[k].clone();
        let ghost before = *host;
        match find_keyed(&groups.groups, &name) {
            Some(gi) => {
                merge_group_into_host(host, &groups.groups[gi].1);
                proof {
                    lemma_referenced(groups.groups@, name@, gi as int);
                    assert(old(host).groups@[k as int]@ == name@);
                    lemma_monitors_merged_step(before.monitors@, host.monitors@, old(host).groups@, groups.groups@, k as int);
                    lemma_commands_merged_step(before.commands@, host.commands@, old(host).groups@, groups.groups@, k as int);
                    lemma_connectors_merged_step(before.connectors@, host.connectors@, old(host).groups@, groups.groups@, k as int);
                    assert forall|m: int, gj: int|
                        0 <= m < k + 1 && first_group(groups.groups@, (#[trigger] host.groups@[m])@, gj)
                            implies covers_group(*host, #[trigger] groups.groups@[gj].1) by {
                        if m < k {
                            lemma_covers_kept(before, *host, groups.groups@[gj].1);
                        } else {
                            if gj != gi as int {
                                if gj < gi {
                                    assert(groups.groups@[gj].0@ != name@);
                                } else {
                                    assert(groups.groups@[gi as int].0@ != name@);
                                }
                            }
                        }
                    }
                }
            },
            None => {
                assert(has_key(groups.groups@, host.groups@[k as int]@));
            },
        }
        k = k + 1;
    }
}

/// The group references of `refs` that name no group, in order.
pub open spec fn missing_in(refs: Seq<String>, groups: Seq<(String, ConfigGroup)>) -> Seq<Seq<char>>
    decreases refs.len(),
{
    if refs.len() == 0 {
        Seq::empty()
    } else if has_key(groups, refs.last()@) {
        missing_in(refs.drop_last(), groups)
    } else {
        missing_in(refs.drop_last(), groups).push(refs.last()@)
    }
}

/// The group references of all hosts that name no group, host by host.
pub open spec fn missing_refs(hosts: Seq<(String, HostSettings)>, groups: Seq<(String, ConfigGroup)>) -> Seq<Seq<char>>
    decreases hosts.len(),
{
    if hosts.len() == 0 {
        Seq::empty()
    } else {
        missing_refs(hosts.drop_last(), groups) + missing_in(hosts.last().1.groups@, groups)
    }
}

/// The names joined with `", "`.
pub open spec fn join_names(names: Seq<Seq<char>>) -> Seq<char>
    decreases names.len(),
{
    if names.len() == 0 {
        Seq::empty()
    } else if names.len() == 1 {
        names[0]
    } else {
        join_names(names.drop_last()) + ", "@ + names.last()
    }
}

/// Check that every group a host refers to exists, then apply each host's groups to it.
pub fn apply_groups(hosts: Hosts, groups: &Groups) -> (r: Result<Hosts, String>)
    ensures
        r is Err <==> !references_known_groups(hosts.hosts@, groups.groups@),
        r matches Err(m) ==> m@ == "Invalid group references: "@ + join_names(missing_refs(hosts.hosts@, groups.groups@)),
        r matches Ok(h) ==> h.hosts@.len() == hosts.hosts@.len() && forall|i: int|
            0 <= i < hosts.hosts@.len() ==> (#[trigger] h.hosts@[i]).0 == hosts.hosts@[i].0 && groups_applied(
                hosts.hosts@[i].1,
                h.hosts@[i].1,
                groups.groups@,
            ),
{
    let mut invalid: Vec<String> = Vec::new();
    let mut i: usize = 0;
    assert(strings_view(invalid@) =~= missing_refs(hosts.hosts@.subrange(0, 0), groups.groups@));
    while i < hosts.hosts.len()
        invariant
            i <= hosts.hosts@.len(),
            strings_view(invalid@) == missing_refs(hosts.hosts@.subrange(0, i as int), groups.groups@),
            invalid@.len() == 0 <==> forall|a: int, k: int|
                0 <= a < i && 0 <= k < hosts.hosts@[a].1.groups@.len() ==> has_key(
                    groups.groups@,
                    (#[trigger] hosts.hosts@[a].1.groups@[k])@,
                ),
        decreases hosts.hosts@.len() - i,
    {
        let host_groups = &hosts.hosts[i].1.groups;
        let mut k: usize = 0;
        while k < host_groups.len()
            invariant
                i < hosts.hosts@.len(),
                *host_groups == hosts.hosts@[i as int].1.groups,
                k <= host_groups@.len(),
                strings_view(invalid@) == missing_refs(hosts.hosts@.subrange(0, i as int), groups.groups@) + missing_in(
                    host_groups@.subrange(0, k as int),
                    groups.groups@,
                ),
                invalid@.len() == 0 <==> (forall|a: int, k2: int|
                    0 <= a < i && 0 <= k2 < hosts.hosts@[a].1.groups@.len() ==> has_key(
                        groups.groups@,
                        (#[trigger] hosts.hosts@[a].1.groups@[k2])@,
                    )) && forall|k2: int| 0 <= k2 < k ==> has_key(groups.groups@, (#[trigger] host_groups@[k2])@),
            decreases host_groups@.len() - k,
        {
            let ghost before = invalid@;
            proof {
                let sub = host_groups@.subrange(0, k as int + 1);
                assert(sub.drop_last() =~= host_groups@.subrange(0, k as int));
                assert(sub.last() == host_groups@[k as int]);
            }
            if find_keyed(&groups.groups, &host_groups[k]).is_none() {
                invalid.push(host_groups[k].clone());
                assert(strings_view(invalid@) =~= strings_view(before).push(host_groups@[k as int]@));
            }
            k = k + 1;
        }
        proof {
            let sub = hosts.hosts@.subrange(0, i as int + 1);
            assert(sub.drop_last() =~= hosts.hosts@.subrange(0, i as int));
            assert(host_groups@.subrange(0, host_groups@.len() as int) =~= host_groups@);
            assert forall|a: int, k2: int|
                0 <= a < i + 1 && 0 <= k2 < hosts.hosts@[a].1.groups@.len() && invalid@.len() == 0 implies has_key(
                groups.groups@,
                (#[trigger] hosts.hosts@[a].1.groups@[k2])@,
            ) by {
                if a == i {
                    assert(host_groups@[k2] == hosts.hosts@[a].1.groups@[k2]);
                }
            }
        }
        i = i + 1;
    }
    if invalid.len() > 0 {
        let mut message = String::from_str("Invalid group references: ");
        let ghost names = strings_view(invalid@);
        assert(hosts.hosts@.subrange(0, hosts.hosts@.len() as int) =~= hosts.hosts@);
        let mut k: usize = 0;
        assert(names.subrange(0, 0) =~= Seq::<Seq<char>>::empty());
        assert(message@ =~= "Invalid group references: "@ + join_names(names.subrange(0, 0)));
        while k < invalid.len()
            invariant
                k <= invalid@.len(),
                names == strings_view(invalid@),
                message@ == "Invalid group references: "@ + join_names(names.subrange(0, k as int)),
            decreases invalid@.len() - k,
        {
            let ghost prev = message@;
            proof {
                let sub = names.subrange(0, k as int + 1);
                assert(sub.drop_last() =~= names.subrange(0, k as int));
                assert(sub.last() == invalid@[k as int]@);
            }
            if k > 0 {
                message.append(", ");
            }
            message.append(invalid[k].as_str());
            proof {
                let sub = names.subrange(0, k as int + 1);
                if k == 0 {
                    assert(message@ =~= "Invalid group references: "@ + join_names(sub));
                } else {
                    assert(message@ =~= "Invalid group references: "@ + join_names(sub));
                }
            }
            k = k + 1;
        }
        assert(names.subrange(0, invalid@.len() as int) =~= names);
        return Err(message);
    }
    let mut hosts = hosts;
    let ghost given = hosts.hosts@;
    let mut i: usize = 0;
    while i < hosts.hosts.len()
        invariant
            i <= hosts.hosts@.len(),
            hosts.hosts@.len() == given.len(),
            references_known_groups(given, groups.groups@),
            forall|a: int| i <= a < given.len() ==> hosts.hosts@[a] == given[a],
            forall|a: int|
                0 <= a < i ==> (#[trigger] hosts.hosts@[a]).0 == given[a].0 && groups_applied(
                    given[a].1,
                    hosts.hosts@[a].1,
                    groups.groups@,
                ),
        decreases hosts.hosts@.len() - i,
    {
        assert(hosts.hosts@[i as int] == given[i as int]);
        assert forall|k: int|
            0 <= k < hosts.hosts@[i as int].1.groups@.len() implies has_key(
                groups.groups@,
                (#[trigger] hosts.hosts@[i as int].1.groups@[k])@,
            ) by {
            assert(given[i as int].1.groups@[k] == hosts.hosts@[i as int].1.groups@[k]);
        }
        merge_host_groups(&mut hosts.hosts[i].1, groups);
        i = i + 1;
    }
    Ok(hosts)
}

} // verus!
