use vstd::prelude::*;

use crate::data::{
    CommandResult, ErrorMessage, Criticality, DataPoint, DisplayOptions, Host, ModuleSpecification, PlatformInfo,
};

verus! {

/// How many recent data points are kept for each monitor of a host.
pub const DATA_POINT_BUFFER_SIZE: usize = 4;

/// The value literal of a data point that carries platform info instead of monitor data.
pub open spec fn platform_info_marker() -> Seq<char> {
    "_platform_info"@
}

#[derive(Clone, Copy, Debug, PartialEq, Eq, Structural)]
pub enum HostStatus {
    Pending,
    Up,
    Down,
}

/// The recent values of one monitor on one host, oldest first.
#[derive(Debug)]
pub struct MonitoringData {
    pub monitor_id: String,
    pub values: Vec<DataPoint>,
    pub display_options: DisplayOptions,
    pub is_critical: bool,
}

/// A message to the host state store: a data point or a command result of a module, or the exit token.
#[derive(Debug)]
pub struct StateUpdateMessage {
    pub host_name: String,
    pub display_options: DisplayOptions,
    pub module_spec: ModuleSpecification,
    pub data_point: Option<DataPoint>,
    pub command_result: Option<CommandResult>,
    /// The errors of a command request, each with its criticality; none for other updates.
    pub errors: Option<Vec<ErrorMessage>>,
    pub exit_thread: bool,
}

impl StateUpdateMessage {
    pub fn exit_token() -> (r: StateUpdateMessage)
        ensures
            r.exit_thread,
            r.data_point.is_none(),
            r.command_result.is_none(),
    {
        StateUpdateMessage {
            host_name: String::new(),
            display_options: DisplayOptions::new(String::new(), String::new()),
            module_spec: ModuleSpecification::new("", ""),
            data_point: None,
            command_result: None,
            errors: None,
            exit_thread: true,
        }
    }
}

/// The monitor's latest point is critical and the monitor is marked critical.
pub open spec fn latest_is_critical(md: MonitoringData) -> bool {
    md.is_critical && md.values@.len() > 0 && md.values@.last().criticality == Criticality::Critical
}

/// The monitor has produced a real value (not only the "no data yet" placeholder).
pub open spec fn has_reported(md: MonitoringData) -> bool {
    exists|k: int| 0 <= k < md.values@.len() && md.values@[k].criticality != Criticality::NoData
}

/// `Down` iff some critical monitor's latest point is critical; else `Up` once any monitor has
/// reported, `Pending` before.
pub open spec fn status_of(mds: Seq<MonitoringData>) -> HostStatus {
    if exists|i: int| 0 <= i < mds.len() && latest_is_critical(#[trigger] mds[i]) {
        HostStatus::Down
    } else if exists|i: int| 0 <= i < mds.len() && has_reported(#[trigger] mds[i]) {
        HostStatus::Up
    } else {
        HostStatus::Pending
    }
}

/// Append `p` at the back and drop the oldest value when the buffer overflows.
pub open spec fn ring_push(values: Seq<DataPoint>, p: DataPoint) -> Seq<DataPoint> {
    if values.len() + 1 > DATA_POINT_BUFFER_SIZE {
        values.push(p).drop_first()
    } else {
        values.push(p)
    }
}

pub open spec fn has_monitor(mds: Seq<MonitoringData>, id: Seq<char>) -> bool {
    exists|i: int| 0 <= i < mds.len() && (#[trigger] mds[i]).monitor_id@ == id
}

pub open spec fn unique_monitor_ids(mds: Seq<MonitoringData>) -> bool {
    forall|i: int, j: int|
        0 <= i < mds.len() && 0 <= j < mds.len() && i != j ==> (#[trigger] mds[i]).monitor_id@
            != (#[trigger] mds[j]).monitor_id@
}

pub open spec fn unique_command_ids(crs: Seq<(String, CommandResult)>) -> bool {
    forall|i: int, j: int|
        0 <= i < crs.len() && 0 <= j < crs.len() && i != j ==> (#[trigger] crs[i]).0@ != (
        #[trigger] crs[j]).0@
}

/// The labels that a platform info point may carry.
pub open spec fn is_platform_label(label: Seq<char>) -> bool {
    label == "os"@ || label == "os_version"@ || label == "os_flavor"@ || label == "architecture"@
}

/// The value of the last child labelled `label`, or empty when there is none.
pub open spec fn last_value_of(points: Seq<DataPoint>, label: Seq<char>) -> Seq<char>
    decreases points.len(),
{
    if points.len() == 0 {
        Seq::empty()
    } else if points.last().label@ == label {
        points.last().value@
    } else {
        last_value_of(points.drop_last(), label)
    }
}

/// The operating systems a platform info point may name.
pub open spec fn is_known_os(value: Seq<char>) -> bool {
    value == "linux"@ || value == "windows"@
}

/// The distribution flavors a platform info point may name.
pub open spec fn is_known_flavor(value: Seq<char>) -> bool {
    value == "debian"@ || value == "ubuntu"@ || value == "centos"@ || value == "redhat"@ || value == "fedora"@
        || value == "nixos"@ || value == "arch"@ || value == "alpine"@
}

/// A child of a platform info point: a known label, and a known system or flavor where it names one.
pub open spec fn valid_platform_child(c: DataPoint) -> bool {
    &&& is_platform_label(c.label@)
    &&& (c.label@ == "os"@ ==> is_known_os(c.value@))
    &&& (c.label@ == "os_flavor"@ ==> is_known_flavor(c.value@))
}

pub open spec fn valid_platform_info(point: DataPoint) -> bool {
    forall|k: int| 0 <= k < point.multivalue@.len() ==> valid_platform_child(#[trigger] point.multivalue@[k])
}

pub fn known_os(value: &String) -> (r: bool)
    ensures
        r == is_known_os(value@),
{
    proof {
        reveal_strlit("linux");
        reveal_strlit("windows");
    }
    *value == String::from_str("linux") || *value == String::from_str("windows")
}

pub fn known_flavor(value: &String) -> (r: bool)
    ensures
        r == is_known_flavor(value@),
{
    proof {
        reveal_strlit("debian");
        reveal_strlit("ubuntu");
        reveal_strlit("centos");
        reveal_strlit("redhat");
        reveal_strlit("fedora");
        reveal_strlit("nixos");
        reveal_strlit("arch");
        reveal_strlit("alpine");
    }
    *value == String::from_str("debian") || *value == String::from_str("ubuntu") || *value == String::from_str("centos")
        || *value == String::from_str("redhat") || *value == String::from_str("fedora") || *value == String::from_str(
        "nixos",
    ) || *value == String::from_str("arch") || *value == String::from_str("alpine")
}

/// The platform that a valid platform info point describes.
pub open spec fn platform_matches(p: PlatformInfo, point: DataPoint) -> bool {
    &&& p.os@ == last_value_of(point.multivalue@, "os"@)
    &&& p.os_version@ == last_value_of(point.multivalue@, "os_version"@)
    &&& p.os_flavor@ == last_value_of(point.multivalue@, "os_flavor"@)
    &&& p.architecture@ == last_value_of(point.multivalue@, "architecture"@)
}

/// Read a platform info point: its children carry `os`, `os_version`, `os_flavor` and
/// `architecture`; any other label makes the point invalid.
pub fn read_platform_info(point: &DataPoint) -> (r: Result<PlatformInfo, String>)
    ensures
        r is Ok <==> valid_platform_info(*point),
        r matches Ok(p) ==> platform_matches(p, *point),
{
    proof {
        reveal_strlit("os");
        reveal_strlit("os_version");
        reveal_strlit("os_flavor");
        reveal_strlit("architecture");
        assert("os"@.len() == 2);
        assert("os_version"@.len() == 10);
        assert("os_flavor"@.len() == 9);
        assert("architecture"@.len() == 12);
    }
    let mut platform = PlatformInfo::unset();
    let os = String::from_str("os");
    let os_version = String::from_str("os_version");
    let os_flavor = String::from_str("os_flavor");
    let architecture = String::from_str("architecture");
    let mut i: usize = 0;
    while i < point.multivalue.len()
        invariant
            i <= point.multivalue@.len(),
            os@ == "os"@,
            os_version@ == "os_version"@,
            os_flavor@ == "os_flavor"@,
            architecture@ == "architecture"@,
            "os"@.len() == 2,
            "os_version"@.len() == 10,
            "os_flavor"@.len() == 9,
            "architecture"@.len() == 12,
            forall|k: int| 0 <= k < i ==> valid_platform_child(#[trigger] point.multivalue@[k]),
            platform.os@ == last_value_of(point.multivalue@.subrange(0, i as int), "os"@),
            platform.os_version@ == last_value_of(
                point.multivalue@.subrange(0, i as int),
                "os_version"@,
            ),
            platform.os_flavor@ == last_value_of(
                point.multivalue@.subrange(0, i as int),
                "os_flavor"@,
            ),
            platform.architecture@ == last_value_of(
                point.multivalue@.subrange(0, i as int),
                "architecture"@,
            ),
        decreases point.multivalue@.len() - i,
    {
        let child = &point.multivalue[i];
        let ghost prefix = point.multivalue@.subrange(0, i as int + 1);
        assert(prefix.drop_last() =~= point.multivalue@.subrange(0, i as int));
        assert(prefix.last() == *child);
        if child.label == os {
            if !known_os(&child.value) {
                return Err(String::from_str("Unknown operating system"));
            }
            platform.os = child.value.clone();
        } else if child.label == os_version {
            platform.os_version = child.value.clone();
        } else if child.label == os_flavor {
            if !known_flavor(&child.value) {
                return Err(String::from_str("Unknown flavor"));
            }
            platform.os_flavor = child.value.clone();
        } else if child.label == architecture {
            platform.architecture = child.value.clone();
        } else {
            return Err(String::from_str("Invalid platform info data"));
        }
        i = i + 1;
    }
    assert(point.multivalue@.subrange(0, i as int) =~= point.multivalue@);
    Ok(platform)
}

/// What one state update changed.
#[derive(Clone, Copy, Debug, PartialEq, Eq, Structural)]
pub enum StateChange {
    PlatformUpdated,
    PlatformRejected,
    DataPointAdded,
    CommandResultStored,
    Nothing,
}

/// The authoritative state of one host.
#[derive(Debug)]
pub struct HostState {
    pub host: Host,
    pub status: HostStatus,
    pub monitor_data: Vec<MonitoringData>,
    pub command_results: Vec<(String, CommandResult)>,
}

impl HostState {
    pub open spec fn wf(&self) -> bool {
        &&& unique_monitor_ids(self.monitor_data@)
        &&& unique_command_ids(self.command_results@)
        &&& forall|i: int|
            0 <= i < self.monitor_data@.len() ==> (#[trigger] self.monitor_data@[i]).values@.len()
                <= DATA_POINT_BUFFER_SIZE
        &&& self.status == status_of(self.monitor_data@)
    }

    pub fn from_host(host: Host) -> (r: HostState)
        ensures
            r.wf(),
            r.host == host,
            r.status == HostStatus::Pending,
            r.monitor_data@.len() == 0,
            r.command_results@.len() == 0,
    {
        HostState { host, status: HostStatus::Pending, monitor_data: Vec::new(), command_results: Vec::new() }
    }

    pub fn find_monitor(&self, id: &String) -> (r: Option<usize>)
        ensures
            r matches Some(i) ==> i < self.monitor_data@.len() && self.monitor_data@[i as int].monitor_id@
                == id@,
            r is None ==> !has_monitor(self.monitor_data@, id@),
    {
        let mut i: usize = 0;
        while i < self.monitor_data.len()
            invariant
                i <= self.monitor_data@.len(),
                forall|k: int| 0 <= k < i ==> (#[trigger] self.monitor_data@[k]).monitor_id@ != id@,
            decreases self.monitor_data@.len() - i,
        {
            if self.monitor_data[i].monitor_id == *id {
                return Some(i);
            }
            i = i + 1;
        }
        None
    }

    /// The newest value of monitor `id`: what an observer is sent as the new data point.
    pub fn newest_point(&self, id: &String) -> (r: Option<&DataPoint>)
        ensures
            r is None <==> !exists|i: int|
                0 <= i < self.monitor_data@.len() && (#[trigger] self.monitor_data@[i]).monitor_id@ == id@
                    && self.monitor_data@[i].values@.len() > 0 && forall|k: int| 0 <= k < i ==> (#[trigger] self.monitor_data@[k]).monitor_id@ != id@,
            r matches Some(p) ==> exists|i: int|
                0 <= i < self.monitor_data@.len() && (#[trigger] self.monitor_data@[i]).monitor_id@ == id@
                    && *p == self.monitor_data@[i].values@.last(),
    {
        let mut i: usize = 0;
        while i < self.monitor_data.len()
            invariant
                i <= self.monitor_data@.len(),
                forall|k: int| 0 <= k < i ==> (#[trigger] self.monitor_data@[k]).monitor_id@ != id@,
            decreases self.monitor_data@.len() - i,
        {
            if self.monitor_data[i].monitor_id == *id {
                let n = self.monitor_data[i].values.len();
                if n == 0 {
                    return None;
                }
                return Some(&self.monitor_data[i].values[n - 1]);
            }
            i = i + 1;
        }
        None
    }

    /// The data point that an update with outcome `change` for monitor `id` added: the monitor's
    /// newest value after a data point was added, nothing after any other update.
    pub fn added_point(&self, id: &String, change: StateChange) -> (r: Option<&DataPoint>)
        ensures
            change != StateChange::DataPointAdded ==> r is None,
            r matches Some(p) ==> change == StateChange::DataPointAdded && exists|i: int|
                0 <= i < self.monitor_data@.len() && (#[trigger] self.monitor_data@[i]).monitor_id@ == id@
                    && *p == self.monitor_data@[i].values@.last(),
            change == StateChange::DataPointAdded && r is None ==> !exists|i: int|
                0 <= i < self.monitor_data@.len() && (#[trigger] self.monitor_data@[i]).monitor_id@ == id@
                    && self.monitor_data@[i].values@.len() > 0 && forall|k: int| 0 <= k < i ==> (#[trigger] self.monitor_data@[k]).monitor_id@ != id@,
    {
        if change == StateChange::DataPointAdded {
            self.newest_point(id)
        } else {
            None
        }
    }

    /// The command result that an update with outcome `change` for command `id` stored.
    pub fn stored_result(&self, id: &String, change: StateChange) -> (r: Option<&CommandResult>)
        ensures
            change != StateChange::CommandResultStored ==> r is None,
            change == StateChange::CommandResultStored && (exists|k: int|
                0 <= k < self.command_results@.len() && (#[trigger] self.command_results@[k]).0@ == id@) ==> r is Some,
            r matches Some(c) ==> change == StateChange::CommandResultStored && exists|k: int|
                0 <= k < self.command_results@.len() && (#[trigger] self.command_results@[k]).0@ == id@
                    && *c == self.command_results@[k].1,
    {
        if change == StateChange::CommandResultStored {
            self.command_result(id)
        } else {
            None
        }
    }

    /// The stored result of command `id`: what an observer is sent as the new command result.
    pub fn command_result(&self, id: &String) -> (r: Option<&CommandResult>)
        ensures
            r is None ==> forall|k: int| 0 <= k < self.command_results@.len() ==> (#[trigger] self.command_results@[k]).0@ != id@,
            r matches Some(c) ==> exists|k: int|
                0 <= k < self.command_results@.len() && (#[trigger] self.command_results@[k]).0@ == id@
                    && *c == self.command_results@[k].1,
    {
        match self.find_command_result(id) {
            Some(k) => Some(&self.command_results[k].1),
            None => None,
        }
    }

    pub fn find_command_result(&self, id: &String) -> (r: Option<usize>)
        ensures
            r matches Some(i) ==> i < self.command_results@.len() && self.command_results@[i as int].0@
                == id@,
            r is None ==> forall|k: int|
                0 <= k < self.command_results@.len() ==> (#[trigger] self.command_results@[k]).0@
                    != id@,
    {
        let mut i: usize = 0;
        while i < self.command_results.len()
            invariant
                i <= self.command_results@.len(),
                forall|k: int| 0 <= k < i ==> (#[trigger] self.command_results@[k]).0@ != id@,
            decreases self.command_results@.len() - i,
        {
            if self.command_results[i].0 == *id {
                return Some(i);
            }
            i = i + 1;
        }
        None
    }

    fn monitor_has_reported(md: &MonitoringData) -> (r: bool)
        ensures
            r == has_reported(*md),
    {
        let mut k: usize = 0;
        while k < md.values.len()
            invariant
                k <= md.values@.len(),
                forall|j: int| 0 <= j < k ==> (#[trigger] md.values@[j]).criticality == Criticality::NoData,
            decreases md.values@.len() - k,
        {
            if md.values[k].criticality != Criticality::NoData {
                return true;
            }
            k = k + 1;
        }
        false
    }

    /// Recompute the status from the monitors' latest values.
    pub fn update_status(&mut self)
        ensures
            final(self).status == status_of(final(self).monitor_data@),
            final(self).host == old(self).host,
            final(self).monitor_data == old(self).monitor_data,
            final(self).command_results == old(self).command_results,
    {
        let mut down = false;
        let mut up = false;
        let mut i: usize = 0;
        while i < self.monitor_data.len()
            invariant
                i <= self.monitor_data@.len(),
                down == exists|j: int| 0 <= j < i && latest_is_critical(#[trigger] self.monitor_data@[j]),
                up == exists|j: int| 0 <= j < i && has_reported(#[trigger] self.monitor_data@[j]),
            decreases self.monitor_data@.len() - i,
        {
            let md = &self.monitor_data[i];
            let n = md.values.len();
            if md.is_critical && n > 0 && md.values[n - 1].criticality == Criticality::Critical {
                down = true;
            }
            if Self::monitor_has_reported(md) {
                up = true;
            }
            i = i + 1;
        }
        self.status = if down {
            HostStatus::Down
        } else if up {
            HostStatus::Up
        } else {
            HostStatus::Pending
        };
    }

    fn push_data_point(&mut self, id: &String, display_options: DisplayOptions, point: DataPoint)
        requires
            old(self).wf(),
        ensures
            unique_monitor_ids(final(self).monitor_data@),
            forall|i: int|
                0 <= i < final(self).monitor_data@.len() ==> (#[trigger] final(self).monitor_data@[i]).values@.len() <= DATA_POINT_BUFFER_SIZE,
            final(self).host == old(self).host,
            final(self).command_results == old(self).command_results,
            data_point_added(old(self).monitor_data@, final(self).monitor_data@, id@, point),
    {
        match self.find_monitor(id) {
            Some(i) => {
                let ghost before = self.monitor_data@[i as int];
                self.monitor_data[i].values.push(point);
                if self.monitor_data[i].values.len() > DATA_POINT_BUFFER_SIZE {
                    self.monitor_data[i].values.remove(0);
                }
                assert(self.monitor_data@[i as int].values@ =~= ring_push(before.values@, point));
                assert(forall|k: int|
                    0 <= k < self.monitor_data@.len() && k != i ==> self.monitor_data@[k]
                        == old(self).monitor_data@[k]);
                assert(self.monitor_data@[i as int].monitor_id@ == id@);
                assert(data_point_added(old(self).monitor_data@, self.monitor_data@, id@, point));
            },
            None => {
                let mut values = Vec::new();
                values.push(point);
                let is_critical = display_options.is_critical;
                self.monitor_data.push(
                    MonitoringData { monitor_id: id.clone(), values, display_options, is_critical },
                );
                let ghost n = old(self).monitor_data@.len() as int;
                assert(self.monitor_data@[n].values@ =~= ring_push(Seq::empty(), point));
                assert(forall|k: int| 0 <= k < n ==> self.monitor_data@[k] == old(self).monitor_data@[k]);
                assert(self.monitor_data@[n].monitor_id@ == id@);
                assert(data_point_added(old(self).monitor_data@, self.monitor_data@, id@, point));
            },
        }
    }

    fn store_command_result(&mut self, id: &String, result: CommandResult)
        requires
            old(self).wf(),
        ensures
            final(self).wf(),
            final(self).host == old(self).host,
            final(self).monitor_data == old(self).monitor_data,
            command_result_stored(old(self).command_results@, final(self).command_results@, id@, result),
    {
        match self.find_command_result(id) {
            Some(i) => {
                self.command_results[i].1 = result;
                assert(self.command_results@[i as int].0@ == id@);
                assert(command_result_stored(old(self).command_results@, self.command_results@, id@, result));
            },
            None => {
                self.command_results.push((id.clone(), result));
                let ghost n = old(self).command_results@.len() as int;
                assert(self.command_results@[n].0@ == id@);
                assert(command_result_stored(old(self).command_results@, self.command_results@, id@, result));
            },
        }
    }

    /// Apply one update for this host. A data point whose value is the platform info marker
    /// changes only the host's platform; any other data point enters its monitor's buffer;
    /// a command result replaces the one stored for its command. The status is then recomputed.
    pub fn apply_update(&mut self, message: StateUpdateMessage) -> (r: StateChange)
        requires
            old(self).wf(),
        ensures
            final(self).wf(),
            final(self).host.name == old(self).host.name,
            update_applied(*old(self), *final(self), message, r),
    {
        proof {
            reveal_strlit("_platform_info");
        }
        let marker = String::from_str("_platform_info");
        let StateUpdateMessage { module_spec, data_point, command_result, display_options, .. } =
            message;
        let change = match data_point {
            Some(point) => {
                if point.value == marker {
                    match read_platform_info(&point) {
                        Ok(platform) => {
                            self.host.platform = platform;
                            StateChange::PlatformUpdated
                        },
                        Err(_) => StateChange::PlatformRejected,
                    }
                } else {
                    self.push_data_point(&module_spec.id, display_options, point);
                    StateChange::DataPointAdded
                }
            },
            None => match command_result {
                Some(result) => {
                    self.store_command_result(&module_spec.id, result);
                    StateChange::CommandResultStored
                },
                None => StateChange::Nothing,
            },
        };
        self.update_status();
        change
    }
}

/// What one update does to a host's state (see `HostState::apply_update`).
pub open spec fn update_applied(before: HostState, after: HostState, message: StateUpdateMessage, r: StateChange) -> bool {
        match message.data_point {
            Some(p) => if p.value@ == platform_info_marker() {
                &&& after.monitor_data == before.monitor_data
                &&& after.command_results == before.command_results
                &&& (valid_platform_info(p) ==> r == StateChange::PlatformUpdated
                    && platform_matches(after.host.platform, p) && after.host == (Host {
                    platform: after.host.platform,
                    ..before.host
                }))
                &&& (!valid_platform_info(p) ==> r == StateChange::PlatformRejected
                    && after.host == before.host)
            } else {
                &&& r == StateChange::DataPointAdded
                &&& after.host == before.host
                &&& after.command_results == before.command_results
                &&& data_point_added(
                    before.monitor_data@,
                    after.monitor_data@,
                    message.module_spec.id@,
                    p,
                )
            },
            None => match message.command_result {
                Some(c) => {
                    &&& r == StateChange::CommandResultStored
                    &&& after.host == before.host
                    &&& after.monitor_data == before.monitor_data
                    &&& command_result_stored(
                        before.command_results@,
                        after.command_results@,
                        message.module_spec.id@,
                        c,
                    )
                },
                None => {
                    &&& r == StateChange::Nothing
                    &&& after.host == before.host
                    &&& after.monitor_data == before.monitor_data
                    &&& after.command_results == before.command_results
                },
            },
        }
}

/// After the update, monitor `id` is at some position `i` whose values are the old ones (or
/// none, for a new monitor) with `p` pushed into the ring; every other monitor is unchanged.
pub open spec fn data_point_added(
    before: Seq<MonitoringData>,
    after: Seq<MonitoringData>,
    id: Seq<char>,
    p: DataPoint,
) -> bool {
    exists|i: int|
        0 <= i < after.len() && #[trigger] after[i].monitor_id@ == id && {
            &&& (i < before.len() ==> before[i].monitor_id@ == id && after[i].values@ == ring_push(
                before[i].values@,
                p,
            ))
            &&& (i == before.len() ==> !has_monitor(before, id) && after[i].values@ == ring_push(
                Seq::empty(),
                p,
            ))
            &&& i <= before.len()
            &&& after.len() == (if i < before.len() {
                before.len()
            } else {
                before.len() + 1
            })
            &&& forall|k: int| 0 <= k < before.len() && k != i ==> after[k] == before[k]
        }
}

/// After the update, command `id` holds exactly `c`; every other stored result is unchanged.
pub open spec fn command_result_stored(
    before: Seq<(String, CommandResult)>,
    after: Seq<(String, CommandResult)>,
    id: Seq<char>,
    c: CommandResult,
) -> bool {
    exists|i: int|
        0 <= i < after.len() && #[trigger] after[i].0@ == id && after[i].1 == c && i <= before.len()
            && (i < before.len() ==> before[i].0@ == id && after.len() == before.len()) && (i
            == before.len() ==> after.len() == before.len() + 1) && forall|k: int|
            0 <= k < before.len() && k != i ==> after[k] == before[k]
}

/// Of a well-formed host state: no monitor holds more than `DATA_POINT_BUFFER_SIZE` values,
/// and the host is down exactly when some critical monitor's latest value is critical;
/// otherwise it is up once a monitor has reported, and pending before.
pub proof fn lemma_host_state_laws(s: HostState)
    requires
        s.wf(),
    ensures
        forall|i: int|
            0 <= i < s.monitor_data@.len() ==> (#[trigger] s.monitor_data@[i]).values@.len()
                <= DATA_POINT_BUFFER_SIZE,
        s.status == HostStatus::Down <==> exists|i: int|
            0 <= i < s.monitor_data@.len() && latest_is_critical(#[trigger] s.monitor_data@[i]),
        s.status == HostStatus::Pending <==> forall|i: int|
            0 <= i < s.monitor_data@.len() ==> !latest_is_critical(#[trigger] s.monitor_data@[i])
                && !has_reported(s.monitor_data@[i]),
{
}

/// The newest value of a monitor is at the back of its buffer: after a data point `p` is
/// added for monitor `id`, the last value of that monitor is `p`.
pub proof fn lemma_newest_at_back(values: Seq<DataPoint>, p: DataPoint)
    requires
        values.len() <= DATA_POINT_BUFFER_SIZE,
    ensures
        ring_push(values, p).len() <= DATA_POINT_BUFFER_SIZE,
        ring_push(values, p).len() > 0,
        ring_push(values, p).last() == p,
{
}

/// What the store did with one message.
#[derive(Clone, Copy, Debug, PartialEq, Eq, Structural)]
pub enum UpdateOutcome {
    /// The exit token: the update worker stops.
    Exit,
    /// No host of that name; the message was dropped.
    UnknownHost,
    Applied(StateChange),
}

pub open spec fn unique_host_names(hosts: Seq<HostState>) -> bool {
    forall|i: int, j: int|
        0 <= i < hosts.len() && 0 <= j < hosts.len() && i != j ==> (#[trigger] hosts[i]).host.name@
            != (#[trigger] hosts[j]).host.name@
}

pub open spec fn has_host(hosts: Seq<HostState>, name: Seq<char>) -> bool {
    exists|i: int| 0 <= i < hosts.len() && (#[trigger] hosts[i]).host.name@ == name
}

/// The per-host state of every registered host, keyed by host name.
#[derive(Debug)]
pub struct HostManager {
    pub hosts: Vec<HostState>,
}

impl HostManager {
    pub open spec fn wf(&self) -> bool {
        &&& unique_host_names(self.hosts@)
        &&& forall|i: int| 0 <= i < self.hosts@.len() ==> (#[trigger] self.hosts@[i]).wf()
    }

    pub fn new() -> (r: HostManager)
        ensures
            r.wf(),
            r.hosts@.len() == 0,
    {
        HostManager { hosts: Vec::new() }
    }

    pub fn find_host(&self, name: &String) -> (r: Option<usize>)
        ensures
            r matches Some(i) ==> i < self.hosts@.len() && self.hosts@[i as int].host.name@ == name@,
            r is None ==> !has_host(self.hosts@, name@),
    {
        let mut i: usize = 0;
        while i < self.hosts.len()
            invariant
                i <= self.hosts@.len(),
                forall|k: int| 0 <= k < i ==> (#[trigger] self.hosts@[k]).host.name@ != name@,
            decreases self.hosts@.len() - i,
        {
            if self.hosts[i].host.name == *name {
                return Some(i);
            }
            i = i + 1;
        }
        None
    }

    /// Register a host with status `Pending`; a second host of the same name is rejected.
    pub fn add_host(&mut self, host: Host) -> (r: Result<(), String>)
        requires
            old(self).wf(),
        ensures
            final(self).wf(),
            r is Err <==> has_host(old(self).hosts@, host.name@),
            r is Err ==> final(self).hosts == old(self).hosts,
            r is Ok ==> final(self).hosts@ == old(self).hosts@.push(
                HostState {
                    host,
                    status: HostStatus::Pending,
                    monitor_data: final(self).hosts@.last().monitor_data,
                    command_results: final(self).hosts@.last().command_results,
                },
            ) && final(self).hosts@.last().monitor_data@.len() == 0
                && final(self).hosts@.last().command_results@.len() == 0,
    {
        if self.find_host(&host.name).is_some() {
            return Err(String::from_str("Host already exists"));
        }
        let state = HostState::from_host(host);
        self.hosts.push(state);
        Ok(())
    }

    pub fn get_host(&self, name: &String) -> (r: Option<&Host>)
        ensures
            r is None <==> !has_host(self.hosts@, name@),
            r matches Some(h) ==> h.name@ == name@ && exists|i: int|
                0 <= i < self.hosts@.len() && (#[trigger] self.hosts@[i]).host == *h,
    {
        match self.find_host(name) {
            Some(i) => Some(&self.hosts[i].host),
            None => None,
        }
    }

    pub fn get_host_state(&self, name: &String) -> (r: Option<&HostState>)
        ensures
            r is None <==> !has_host(self.hosts@, name@),
            r matches Some(s) ==> s.host.name@ == name@ && exists|i: int|
                0 <= i < self.hosts@.len() && (#[trigger] self.hosts@[i]) == *s,
    {
        match self.find_host(name) {
            Some(i) => Some(&self.hosts[i]),
            None => None,
        }
    }

    /// Handle one message of the update channel: the exit token stops the worker, a message
    /// for an unknown host is dropped, any other is applied to its host's state.
    pub fn process_update(&mut self, message: StateUpdateMessage) -> (r: UpdateOutcome)
        requires
            old(self).wf(),
        ensures
            final(self).wf(),
            message.exit_thread ==> r == UpdateOutcome::Exit && final(self).hosts == old(self).hosts,
            !message.exit_thread && !has_host(old(self).hosts@, message.host_name@) ==> r
                == UpdateOutcome::UnknownHost && final(self).hosts == old(self).hosts,
            !message.exit_thread && has_host(old(self).hosts@, message.host_name@) ==> exists|
                i: int,
            |
                0 <= i < old(self).hosts@.len() && (#[trigger] old(self).hosts@[i]).host.name@
                    == message.host_name@ && final(self).hosts@ == old(self).hosts@.update(
                    i,
                    final(self).hosts@[i],
                ) && (r matches UpdateOutcome::Applied(c) && update_applied(
                    old(self).hosts@[i],
                    final(self).hosts@[i],
                    message,
                    c,
                )),
    {
        if message.exit_thread {
            return UpdateOutcome::Exit;
        }
        match self.find_host(&message.host_name) {
            None => UpdateOutcome::UnknownHost,
            Some(i) => {
                let ghost msg = message;
                let change = self.hosts[i].apply_update(message);
                assert(self.hosts@[i as int].host.name@ == old(self).hosts@[i as int].host.name@);
                assert(self.hosts@ =~= old(self).hosts@.update(i as int, self.hosts@[i as int]));
                UpdateOutcome::Applied(change)
            },
        }
    }
}

/// The table view of all hosts: each monitor id once, in the order first seen, with its header.
#[derive(Clone, Debug)]
pub struct DisplayData<'a> {
    /// The state of every host, in the order they were added.
    pub hosts: Vec<&'a HostState>,
    pub all_monitor_names: Vec<String>,
    pub table_headers: Vec<String>,
}

pub open spec fn some_host_has_monitor(hosts: Seq<HostState>, id: Seq<char>) -> bool {
    exists|h: int| 0 <= h < hosts.len() && has_monitor((#[trigger] hosts[h]).monitor_data@, id)
}

pub open spec fn names_view(names: Seq<String>) -> Seq<Seq<char>> {
    names.map_values(|s: String| s@)
}

/// Each header is the header of a monitor of that name on some host.
#[verifier::opaque]
pub open spec fn headers_match(hosts: Seq<HostState>, names: Seq<String>, headers: Seq<String>) -> bool {
    forall|k: int|
        0 <= k < names.len() ==> exists|h: int, m: int|
            0 <= h < hosts.len() && 0 <= m < hosts[h].monitor_data@.len() && (#[trigger] hosts[h].monitor_data@[m]).monitor_id@
                == (#[trigger] names[k])@ && headers[k]@ == hosts[h].monitor_data@[m].display_options.header_text()
}

impl HostManager {
    fn contains_name(names: &Vec<String>, name: &String) -> (r: bool)
        ensures
            r == names_view(names@).contains(name@),
    {
        let mut i: usize = 0;
        while i < names.len()
            invariant
                i <= names@.len(),
                forall|k: int| 0 <= k < i ==> (#[trigger] names@[k])@ != name@,
            decreases names@.len() - i,
        {
            if names[i] == *name {
                assert(names_view(names@)[i as int] == name@);
                return true;
            }
            i = i + 1;
        }
        assert(!names_view(names@).contains(name@)) by {
            if names_view(names@).contains(name@) {
                let k = choose|k: int| 0 <= k < names_view(names@).len() && names_view(names@)[k] == name@;
                assert(names@[k]@ == name@);
            }
        }
        false
    }

    /// The monitor ids of all hosts, each once in the order first seen, and the column header of each.
    pub fn get_display_data(&self) -> (r: DisplayData)
        ensures
            r.hosts@.len() == self.hosts@.len(),
            forall|i: int| 0 <= i < self.hosts@.len() ==> *(#[trigger] r.hosts@[i]) == self.hosts@[i],
            r.table_headers@.len() == r.all_monitor_names@.len(),
            names_view(r.all_monitor_names@).no_duplicates(),
            forall|k: int|
                0 <= k < r.all_monitor_names@.len() ==> some_host_has_monitor(
                    self.hosts@,
                    (#[trigger] r.all_monitor_names@[k])@,
                ),
            forall|h: int, m: int|
                0 <= h < self.hosts@.len() && 0 <= m < self.hosts@[h].monitor_data@.len() ==> names_view(
                    r.all_monitor_names@,
                ).contains((#[trigger] self.hosts@[h].monitor_data@[m]).monitor_id@),
            headers_match(self.hosts@, r.all_monitor_names@, r.table_headers@),
    {
        let mut names: Vec<String> = Vec::new();
        let mut headers: Vec<String> = Vec::new();
        assert(headers_match(self.hosts@, names@, headers@)) by {
            reveal(headers_match);
        }
        let mut h: usize = 0;
        while h < self.hosts.len()
            invariant
                h <= self.hosts@.len(),
                headers@.len() == names@.len(),
                names_view(names@).no_duplicates(),
                forall|k: int| 0 <= k < names@.len() ==> some_host_has_monitor(self.hosts@, (#[trigger] names@[k])@),
                headers_match(self.hosts@, names@, headers@),
                forall|a: int, m: int|
                    0 <= a < h && 0 <= m < self.hosts@[a].monitor_data@.len() ==> names_view(names@).contains(
                        (#[trigger] self.hosts@[a].monitor_data@[m]).monitor_id@,
                    ),
            decreases self.hosts@.len() - h,
        {
            let state = &self.hosts[h];
            let mut m: usize = 0;
            while m < state.monitor_data.len()
                invariant
                    h < self.hosts@.len(),
                    *state == self.hosts@[h as int],
                    m <= state.monitor_data@.len(),
                    headers@.len() == names@.len(),
                    names_view(names@).no_duplicates(),
                    forall|k: int| 0 <= k < names@.len() ==> some_host_has_monitor(self.hosts@, (#[trigger] names@[k])@),
                    headers_match(self.hosts@, names@, headers@),
                    forall|a: int, b: int|
                        0 <= a < h && 0 <= b < self.hosts@[a].monitor_data@.len() ==> names_view(names@).contains(
                            (#[trigger] self.hosts@[a].monitor_data@[b]).monitor_id@,
                        ),
                    forall|b: int| 0 <= b < m ==> names_view(names@).contains((#[trigger] state.monitor_data@[b]).monitor_id@),
                decreases state.monitor_data@.len() - m,
            {
                let data = &state.monitor_data[m];
                if !Self::contains_name(&names, &data.monitor_id) {
                    let ghost before = names@;
                    let ghost old_headers = headers@;
                    names.push(data.monitor_id.clone());
                    headers.push(data.display_options.header());
                    proof {
                        assert(names_view(names@) =~= names_view(before).push(data.monitor_id@));
                        assert(has_monitor(self.hosts@[h as int].monitor_data@, data.monitor_id@));
                        assert(some_host_has_monitor(self.hosts@, data.monitor_id@));
                        assert forall|k: int| 0 <= k < names@.len() implies some_host_has_monitor(
                            self.hosts@,
                            (#[trigger] names@[k])@,
                        ) by {
                            if k < before.len() {
                                assert(names@[k] == before[k]);
                            }
                        }
                        assert forall|x: Seq<char>| names_view(before).contains(x) implies names_view(names@).contains(x) by {
                            let k = choose|k: int| 0 <= k < names_view(before).len() && names_view(before)[k] == x;
                            assert(names_view(names@)[k] == x);
                        }
                        assert(names_view(names@)[before.len() as int] == data.monitor_id@);
                        reveal(headers_match);
                        assert forall|k: int| 0 <= k < names@.len() implies exists|h2: int, m2: int|
                            0 <= h2 < self.hosts@.len() && 0 <= m2 < self.hosts@[h2].monitor_data@.len() && (#[trigger] self.hosts@[h2].monitor_data@[m2]).monitor_id@
                                == (#[trigger] names@[k])@ && headers@[k]@ == self.hosts@[h2].monitor_data@[m2].display_options.header_text() by {
                            if k < before.len() {
                                assert(names@[k] == before[k]);
                                assert(headers@[k] == old_headers[k]);
                            } else {
                                assert(self.hosts@[h as int].monitor_data@[m as int] == *data);
                            }
                        }
                    }
                }
                m = m + 1;
            }
            h = h + 1;
        }
        let mut snapshots: Vec<&HostState> = Vec::new();
        let mut i: usize = 0;
        while i < self.hosts.len()
            invariant
                i <= self.hosts@.len(),
                snapshots@.len() == i,
                forall|a: int| 0 <= a < i ==> *(#[trigger] snapshots@[a]) == self.hosts@[a],
            decreases self.hosts@.len() - i,
        {
            snapshots.push(&self.hosts[i]);
            i = i + 1;
        }
        DisplayData { hosts: snapshots, all_monitor_names: names, table_headers: headers }
    }
}

} // verus!
