use vstd::prelude::*;

use crate::connection_manager::{CachePolicy, ConnectorRequest, RequestType};
use crate::data::{Criticality, DataPoint, DisplayOptions, Host, ModuleSpecification, ResponseMessage};
use crate::error::LkError;
use crate::host_manager::StateUpdateMessage;
use crate::modules::{
    MonitoringModule, ProcessForm, combine_connector_messages, combined_messages, is_real_error, strings_view, error_responses, falls_back, partition_results,
    process_form,
};

verus! {

/// A monitor registered for a host, with the metadata it reported when it was added.
pub struct MonitorSlot<M> {
    pub host_name: String,
    pub spec: ModuleSpecification,
    pub parent_module: Option<ModuleSpecification>,
    pub connector_spec: Option<ModuleSpecification>,
    pub display_options: DisplayOptions,
    pub module: M,
}

/// Which monitors of a host a refresh covers.
pub enum MonitorFilter {
    All,
    Category(String),
    Id(String),
}

pub open spec fn selected<M>(slot: MonitorSlot<M>, host_name: Seq<char>, filter: MonitorFilter) -> bool {
    &&& slot.host_name@ == host_name
    &&& match filter {
        MonitorFilter::All => true,
        MonitorFilter::Category(c) => slot.display_options.category@ == c@,
        MonitorFilter::Id(id) => slot.spec.id@ == id@,
    }
}

pub open spec fn is_base<M>(slot: MonitorSlot<M>) -> bool {
    slot.parent_module is None
}

pub open spec fn extends<M>(slot: MonitorSlot<M>, host_name: Seq<char>, base: ModuleSpecification) -> bool {
    &&& slot.host_name@ == host_name
    &&& slot.parent_module matches Some(p) && p.same_as(&base)
}

pub open spec fn has_extension<M>(
    slots: Seq<MonitorSlot<M>>,
    host_name: Seq<char>,
    base: ModuleSpecification,
) -> bool {
    exists|k: int| 0 <= k < slots.len() && extends(#[trigger] slots[k], host_name, base)
}

pub open spec fn has_monitor_slot<M>(slots: Seq<MonitorSlot<M>>, host_name: Seq<char>, id: Seq<char>) -> bool {
    exists|k: int|
        0 <= k < slots.len() && (#[trigger] slots[k]).host_name@ == host_name && slots[k].spec.id@ == id
}

/// One refresh in flight: the base module and its extension, if any, run in turn on the same
/// invocation id; each stage hands its data point to the next as `parent_result`.
pub struct MonitorInvocation<M> {
    pub host: Host,
    pub invocation_id: u64,
    pub base_spec: ModuleSpecification,
    pub display_options: DisplayOptions,
    pub modules: Vec<M>,
    pub stage: usize,
    pub parent_result: DataPoint,
}

/// How the current stage ended.
pub enum StageInput {
    ConnectorFailed(Vec<String>),
    ModuleFailed(LkError),
    Produced(DataPoint),
}

/// What comes after a stage: the next stage of the same invocation, or the update to publish.
pub enum StageAction<M> {
    Continue(MonitorInvocation<M>),
    Publish(StateUpdateMessage),
}

pub open spec fn stamped(d: DataPoint, invocation_id: u64) -> DataPoint {
    DataPoint { invocation_id, ..d }
}

/// The update that publishes `d` as the base monitor's result.
pub open spec fn publication<M>(inv: MonitorInvocation<M>, d: DataPoint) -> StateUpdateMessage {
    StateUpdateMessage {
        host_name: inv.host.name,
        display_options: inv.display_options,
        module_spec: inv.base_spec,
        data_point: Some(d),
        command_result: None,
        errors: None,
        exit_thread: false,
    }
}

/// A produced point goes on to the next module, or is published after the last one; a failure
/// skips the remaining modules and publishes the point the failed stage started from.
pub open spec fn stage_outcome<M>(inv: MonitorInvocation<M>, input: StageInput) -> StageAction<M> {
    match input {
        StageInput::Produced(d) => if inv.stage + 1 < inv.modules@.len() {
            StageAction::Continue(
                MonitorInvocation {
                    stage: (inv.stage + 1) as usize,
                    parent_result: stamped(d, inv.invocation_id),
                    ..inv
                },
            )
        } else {
            StageAction::Publish(publication(inv, stamped(d, inv.invocation_id)))
        },
        _ => StageAction::Publish(publication(inv, stamped(inv.parent_result, inv.invocation_id))),
    }
}

/// How a stage ended, from what the module's processing returned.
pub fn stage_input(processed: Result<DataPoint, LkError>) -> (r: StageInput)
    ensures
        match processed {
            Ok(d) => r == StageInput::Produced(d),
            Err(e) => r == StageInput::ModuleFailed(e),
        },
{
    match processed {
        Ok(d) => StageInput::Produced(d),
        Err(e) => StageInput::ModuleFailed(e),
    }
}

/// A monitor's request follows from its specification, its connector and what its two message
/// forms returned: without a connector it sends nothing; with one, a real error of either form
/// is returned instead of a request, else the request carries the combined messages.
pub open spec fn monitor_request_from(
    r: Result<ConnectorRequest, LkError>,
    spec: ModuleSpecification,
    connector: Option<ModuleSpecification>,
    host: Host,
    multi: Result<Vec<String>, LkError>,
    single: Result<String, LkError>,
) -> bool {
    match connector {
        None => r matches Ok(req) && req.connector_spec is None && req.messages@.len() == 0 && req.host.same_as(&host)
            && req.source_id@ == spec.id@ && req.request_type == RequestType::Command,
        Some(c) => {
            &&& (r is Err <==> is_real_error(multi) || is_real_error(single))
            &&& (r matches Ok(req) ==> strings_view(req.messages@) == combined_messages(multi, single)
                && req.connector_spec == Some(c) && req.host.same_as(&host) && req.source_id@ == spec.id@
                && req.request_type == RequestType::Command && req.cache_policy == CachePolicy::UseCache)
        },
    }
}

/// Build a monitor's request from what its connector and message forms returned.
pub fn monitor_request(
    spec: ModuleSpecification,
    connector: Option<ModuleSpecification>,
    host: &Host,
    multi: Result<Vec<String>, LkError>,
    single: Result<String, LkError>,
) -> (r: Result<ConnectorRequest, LkError>)
    ensures
        monitor_request_from(r, spec, connector, *host, multi, single),
        r matches Ok(req) ==> req.request_type == RequestType::Command && (req.connector_spec is None
            ==> req.messages@.len() == 0),
        r matches Err(e) ==> e.message@.len() > 0,
{
    let ghost s = spec;
    let ghost c = connector;
    match connector {
        None => Ok(
            ConnectorRequest {
                connector_spec: None,
                source_id: spec.id,
                host: host.duplicate(),
                messages: Vec::new(),
                request_type: RequestType::Command,
                cache_policy: CachePolicy::UseCache,
            },
        ),
        Some(connector_spec) => match combine_connector_messages(multi, single) {
            Ok(messages) => Ok(
                ConnectorRequest {
                    connector_spec: Some(connector_spec),
                    source_id: spec.id,
                    host: host.duplicate(),
                    messages,
                    request_type: RequestType::Command,
                    cache_policy: CachePolicy::UseCache,
                },
            ),
            Err(e) => Err(e),
        },
    }
}

impl<M: MonitoringModule> MonitorInvocation<M> {
    pub open spec fn wf(&self) -> bool {
        self.stage < self.modules@.len()
    }

    /// The connector request of the current stage. A module without a connector sends no
    /// messages; a real error from building the messages is returned instead of a request.
    pub fn connector_request(&self) -> (r: Result<ConnectorRequest, LkError>)
        requires
            self.wf(),
        ensures
            r matches Ok(req) ==> req.request_type == RequestType::Command && (req.connector_spec is None
                ==> req.messages@.len() == 0),
            r matches Err(e) ==> e.message@.len() > 0,
            exists|spec: ModuleSpecification, connector: Option<ModuleSpecification>, multi: Result<Vec<String>, LkError>, single: Result<String, LkError>|
                #[trigger] monitor_request_from(r, spec, connector, self.host, multi, single),
    {
        let module = &self.modules[self.stage];
        let spec = module.get_module_spec();
        let connector = module.get_connector_spec();
        match connector {
            None => monitor_request(spec, None, &self.host, Ok(Vec::new()), Ok(String::new())),
            Some(c) => {
                let multi = module.get_connector_messages(&self.host, &self.parent_result);
                let single = module.get_connector_message(&self.host, &self.parent_result);
                monitor_request(spec, Some(c), &self.host, multi, single)
            },
        }
    }

    /// Process the connector's results with the current module. Any connector error fails the
    /// stage. Several responses go to the multi-response form, falling back to the first
    /// response when it signals "not implemented"; no responses give an empty one.
    pub fn run_stage(&self, results: Vec<Result<ResponseMessage, String>>) -> (r: StageInput)
        requires
            self.wf(),
        ensures
            error_responses(results@).len() > 0 <==> r is ConnectorFailed,
            r matches StageInput::ConnectorFailed(es) ==> es@ == error_responses(results@),
            !(r is ConnectorFailed) ==> r is Produced || r is ModuleFailed,
    {
        let ghost rs = results@;
        let (responses, errors) = partition_results(results);
        if errors.len() > 0 {
            return StageInput::ConnectorFailed(errors);
        }
        let module = &self.modules[self.stage];
        let processed = match process_form(responses.len()) {
            ProcessForm::Multiple => {
                let multi = module.process_responses(&self.host, &responses, &self.parent_result);
                if falls_back(&multi) {
                    module.process_response(&self.host, &responses[0], &self.parent_result)
                } else {
                    multi
                }
            },
            ProcessForm::Single => module.process_response(&self.host, &responses[0], &self.parent_result),
            ProcessForm::NoResponse => module.process_response(
                &self.host,
                &ResponseMessage::empty(),
                &self.parent_result,
            ),
        };
        stage_input(processed)
    }

    /// End the current stage with `input`.
    pub fn complete_stage(self, input: StageInput) -> (r: StageAction<M>)
        requires
            self.wf(),
        ensures
            r == stage_outcome(self, input),
            r matches StageAction::Continue(next) ==> next.wf(),
    {
        let MonitorInvocation {
            host,
            invocation_id,
            base_spec,
            display_options,
            modules,
            stage,
            parent_result,
        } = self;
        match input {
            StageInput::Produced(d) => {
                let mut point = d;
                point.invocation_id = invocation_id;
                if stage < modules.len() - 1 {
                    StageAction::Continue(
                        MonitorInvocation {
                            host,
                            invocation_id,
                            base_spec,
                            display_options,
                            modules,
                            stage: stage + 1,
                            parent_result: point,
                        },
                    )
                } else {
                    StageAction::Publish(
                        StateUpdateMessage {
                            host_name: host.name,
                            display_options,
                            module_spec: base_spec,
                            data_point: Some(point),
                            command_result: None,
                            errors: None,
                            exit_thread: false,
                        },
                    )
                }
            },
            _ => {
                let mut point = parent_result;
                point.invocation_id = invocation_id;
                StageAction::Publish(
                    StateUpdateMessage {
                        host_name: host.name,
                        display_options,
                        module_spec: base_spec,
                        data_point: Some(point),
                        command_result: None,
                        errors: None,
                        exit_thread: false,
                    },
                )
            },
        }
    }
}

/// A base monitor and its extension: when the base produces `base_point`, the extension runs
/// on the same invocation id with `base_point` (stamped with that id) as its parent result,
/// and the published point is the extension's, stamped likewise. When the base fails, the
/// extension is not run and the base's starting point is published.
pub proof fn lemma_extension_composition<M>(
    inv: MonitorInvocation<M>,
    base_point: DataPoint,
    extension_point: DataPoint,
    failure: StageInput,
)
    requires
        inv.modules@.len() == 2,
        inv.stage == 0,
        !(failure is Produced),
    ensures
        stage_outcome(inv, StageInput::Produced(base_point)) matches StageAction::Continue(next) && {
            &&& next.stage == 1
            &&& next.invocation_id == inv.invocation_id
            &&& next.parent_result == stamped(base_point, inv.invocation_id)
            &&& stage_outcome(next, StageInput::Produced(extension_point)) == StageAction::<M>::Publish(
                publication(inv, stamped(extension_point, inv.invocation_id)),
            )
        },
        stage_outcome(inv, failure) == StageAction::<M>::Publish(
            publication(inv, stamped(inv.parent_result, inv.invocation_id)),
        ),
{
}

pub open spec fn slot_uses_ssh<M>(slot: MonitorSlot<M>) -> bool {
    slot.connector_spec matches Some(c) && c.id@ == "ssh"@
}

pub open spec fn invocation_ids<M>(invocations: Seq<MonitorInvocation<M>>) -> Seq<u64> {
    invocations.map_values(|inv: MonitorInvocation<M>| inv.invocation_id)
}

/// The ids that a dispatcher hands out after its counter stood at `start`: `start + 1`, `start + 2`, ...
pub open spec fn numbered_from(start: int, ids: Seq<u64>) -> bool {
    forall|i: int| 0 <= i < ids.len() ==> ids[i] == start + i + 1
}

/// Invocation ids are positive and strictly increasing: within one dispatch, and from one
/// dispatch to the next, which starts where the counter was left.
pub proof fn lemma_invocation_ids_increase(counter: u64, first: Seq<u64>, second: Seq<u64>)
    requires
        numbered_from(counter as int, first),
        numbered_from(counter + first.len(), second),
    ensures
        forall|i: int| 0 <= i < first.len() ==> first[i] > 0,
        forall|i: int, j: int| 0 <= i < j < first.len() ==> first[i] < first[j],
        forall|i: int, j: int| 0 <= i < first.len() && 0 <= j < second.len() ==> first[i] < second[j],
{
}

/// How many of the first `n` monitors are selected base monitors of the host.
pub open spec fn selected_bases<M>(monitors: Seq<MonitorSlot<M>>, host_name: Seq<char>, filter: MonitorFilter, n: int) -> nat
    decreases n,
{
    if n <= 0 {
        0
    } else {
        selected_bases(monitors, host_name, filter, n - 1) + (if selected(monitors[n - 1], host_name, filter) && is_base(
            monitors[n - 1],
        ) {
            1nat
        } else {
            0nat
        })
    }
}

/// The invocations refresh exactly the selected base monitors of the host: each one refreshes
/// a selected base, and each selected base is refreshed.
#[verifier::opaque]
pub open spec fn covers_selected<M>(
    monitors: Seq<MonitorSlot<M>>,
    host_name: Seq<char>,
    filter: MonitorFilter,
    r: Seq<MonitorInvocation<M>>,
) -> bool {
    &&& forall|i: int|
        0 <= i < r.len() ==> exists|j: int|
            0 <= j < monitors.len() && selected(#[trigger] monitors[j], host_name, filter) && is_base(monitors[j])
                && (#[trigger] r[i]).base_spec.same_as(&monitors[j].spec)
    &&& forall|j: int|
        0 <= j < monitors.len() && selected(#[trigger] monitors[j], host_name, filter) && is_base(monitors[j])
            ==> exists|i: int| 0 <= i < r.len() && (#[trigger] r[i]).base_spec.same_as(&monitors[j].spec)
}

/// Base monitor `j` is selected on host `name`.
pub open spec fn base_on<M>(monitors: Seq<MonitorSlot<M>>, j: int, name: Seq<char>) -> bool {
    0 <= j < monitors.len() && selected(monitors[j], name, MonitorFilter::All) && is_base(monitors[j])
}

/// Invocation `inv` refreshes base monitor `j` on host `name`.
pub open spec fn refreshes<M>(inv: MonitorInvocation<M>, monitors: Seq<MonitorSlot<M>>, j: int, name: Seq<char>) -> bool {
    base_on(monitors, j, name) && inv.host.name@ == name && inv.base_spec.same_as(&monitors[j].spec)
}

/// Each base monitor of the first `n` hosts is refreshed on its host.
#[verifier::opaque]
pub open spec fn hosts_covered<M>(monitors: Seq<MonitorSlot<M>>, hosts: Seq<Host>, n: int, r: Seq<MonitorInvocation<M>>) -> bool {
    forall|h: int, j: int|
        0 <= h < n && #[trigger] base_on(monitors, j, hosts[h].name@) ==> exists|i: int|
            0 <= i < r.len() && #[trigger] refreshes(r[i], monitors, j, hosts[h].name@)
}

proof fn lemma_hosts_covered_step<M>(
    monitors: Seq<MonitorSlot<M>>,
    hosts: Seq<Host>,
    n: int,
    before: Seq<MonitorInvocation<M>>,
    added: Seq<MonitorInvocation<M>>,
)
    requires
        0 <= n < hosts.len(),
        hosts_covered(monitors, hosts, n, before),
        covers_selected(monitors, hosts[n].name@, MonitorFilter::All, added),
        forall|i: int| 0 <= i < added.len() ==> (#[trigger] added[i]).host.same_as(&hosts[n]),
    ensures
        hosts_covered(monitors, hosts, n + 1, before + added),
{
    reveal(hosts_covered);
    reveal(covers_selected);
    let all = before + added;
    assert forall|h: int, j: int|
        0 <= h < n + 1 && #[trigger] base_on(monitors, j, hosts[h].name@) implies exists|i: int|
        0 <= i < all.len() && #[trigger] refreshes(all[i], monitors, j, hosts[h].name@) by {
        if h < n {
            let i = choose|i: int| 0 <= i < before.len() && #[trigger] refreshes(before[i], monitors, j, hosts[h].name@);
            assert(all[i] == before[i]);
        } else {
            assert(selected(monitors[j], hosts[n].name@, MonitorFilter::All));
            let i = choose|i: int| 0 <= i < added.len() && (#[trigger] added[i]).base_spec.same_as(&monitors[j].spec);
            assert(all[before.len() + i] == added[i]);
            assert(refreshes(all[before.len() + i], monitors, j, hosts[h].name@));
        }
    }
}

/// The monitors of every host, and the counter that numbers refreshes.
pub struct MonitorManager<M> {
    pub monitors: Vec<MonitorSlot<M>>,
    /// The last invocation id given out; valid ids start from 1.
    pub invocation_id_counter: u64,
}

impl<M: MonitoringModule + Clone> MonitorManager<M> {
    pub open spec fn wf(&self) -> bool {
        forall|i: int, j: int|
            0 <= i < self.monitors@.len() && 0 <= j < self.monitors@.len() && i != j ==> !((
            #[trigger] self.monitors@[i]).host_name@ == (#[trigger] self.monitors@[j]).host_name@
                && self.monitors@[i].spec.id@ == self.monitors@[j].spec.id@)
    }

    pub fn new() -> (r: MonitorManager<M>)
        ensures
            r.wf(),
            r.monitors@.len() == 0,
            r.invocation_id_counter == 0,
    {
        MonitorManager { monitors: Vec::new(), invocation_id_counter: 0 }
    }

    pub fn find_monitor(&self, host_name: &String, id: &String) -> (r: Option<usize>)
        ensures
            r matches Some(k) ==> k < self.monitors@.len() && self.monitors@[k as int].host_name@
                == host_name@ && self.monitors@[k as int].spec.id@ == id@,
            r is None ==> !has_monitor_slot(self.monitors@, host_name@, id@),
    {
        let mut k: usize = 0;
        while k < self.monitors.len()
            invariant
                k <= self.monitors@.len(),
                forall|j: int|
                    0 <= j < k ==> !((#[trigger] self.monitors@[j]).host_name@ == host_name@
                        && self.monitors@[j].spec.id@ == id@),
            decreases self.monitors@.len() - k,
        {
            if self.monitors[k].host_name == *host_name && self.monitors[k].spec.id == *id {
                return Some(k);
            }
            k = k + 1;
        }
        None
    }

    fn new_invocation(host: &Host, slot: &MonitorSlot<M>, modules: Vec<M>, invocation_id: u64) -> (r:
        MonitorInvocation<M>)
        requires
            modules@.len() > 0,
        ensures
            r.wf(),
            r.invocation_id == invocation_id,
            r.stage == 0,
            r.modules@ == modules@,
            r.base_spec.same_as(&slot.spec),
            r.parent_result.criticality == Criticality::Critical,
            r.parent_result.invocation_id == 0,
            r.host.same_as(host),
    {
        MonitorInvocation {
            host: host.duplicate(),
            invocation_id,
            base_spec: slot.spec.duplicate(),
            display_options: slot.display_options.clone(),
            modules,
            stage: 0,
            parent_result: DataPoint::empty_and_critical(),
        }
    }

    /// Add a monitor to `host` unless it already has one with the same id. The monitor starts
    /// with a "no data" point, to be published; a monitor without a connector is also
    /// refreshed at once, with the next invocation id.
    pub fn add_monitor(&mut self, host: &Host, monitor: M) -> (r: Option<
        (StateUpdateMessage, Option<MonitorInvocation<M>>),
    >)
        requires
            old(self).wf(),
            old(self).invocation_id_counter < u64::MAX,
        ensures
            final(self).wf(),
            r is None ==> final(self).monitors == old(self).monitors && final(self).invocation_id_counter
                == old(self).invocation_id_counter,
            r matches Some((update, bootstrap)) ==> {
                let slot = final(self).monitors@.last();
                &&& final(self).monitors@ == old(self).monitors@.push(slot)
                &&& slot.host_name@ == host.name@
                &&& !has_monitor_slot(old(self).monitors@, host.name@, slot.spec.id@)
                &&& update.host_name@ == host.name@
                &&& update.module_spec.same_as(&slot.spec)
                &&& update.data_point matches Some(p) && p.criticality == Criticality::NoData
                &&& !update.exit_thread
                &&& (bootstrap is Some <==> slot.connector_spec is None)
                &&& (bootstrap matches Some(inv) ==> inv.wf() && inv.invocation_id
                    == old(self).invocation_id_counter + 1 && inv.base_spec.same_as(&slot.spec))
                &&& final(self).invocation_id_counter == (if bootstrap is Some {
                    old(self).invocation_id_counter + 1
                } else {
                    old(self).invocation_id_counter as int
                })
            },
            exists|spec: ModuleSpecification|
                {
                    &&& (r is None <==> has_monitor_slot(old(self).monitors@, host.name@, spec.id@))
                    &&& (r is Some ==> final(self).monitors@.last().spec == spec && final(self).monitors@.last().module
                        == monitor)
                },
    {
        let spec = monitor.get_module_spec();
        if let Some(k) = self.find_monitor(&host.name, &spec.id) {
            assert(has_monitor_slot(old(self).monitors@, host.name@, spec.id@));
            return None;
        }
        let ghost s = spec;
        let ghost m = monitor;
        let slot = MonitorSlot {
            host_name: host.name.clone(),
            spec,
            parent_module: monitor.get_parent_module(),
            connector_spec: monitor.get_connector_spec(),
            display_options: monitor.get_display_options(),
            module: monitor,
        };
        let bootstrap = if slot.connector_spec.is_none() {
            self.invocation_id_counter = self.invocation_id_counter + 1;
            let mut modules = Vec::new();
            modules.push(slot.module.clone());
            Some(Self::new_invocation(host, &slot, modules, self.invocation_id_counter))
        } else {
            None
        };
        let update = StateUpdateMessage {
            host_name: host.name.clone(),
            display_options: slot.display_options.clone(),
            module_spec: slot.spec.duplicate(),
            data_point: Some(DataPoint::no_data()),
            command_result: None,
            errors: None,
            exit_thread: false,
        };
        self.monitors.push(slot);
        assert(self.monitors@.last().spec == s && self.monitors@.last().module == m);
        Some((update, bootstrap))
    }

    fn is_selected(slot: &MonitorSlot<M>, host_name: &String, filter: &MonitorFilter) -> (r: bool)
        ensures
            r == selected(*slot, host_name@, *filter),
    {
        if slot.host_name != *host_name {
            return false;
        }
        match filter {
            MonitorFilter::All => true,
            MonitorFilter::Category(c) => slot.display_options.category == *c,
            MonitorFilter::Id(id) => slot.spec.id == *id,
        }
    }

    /// The first extension of `base` on the host.
    fn find_extension(&self, host_name: &String, base: &ModuleSpecification) -> (r: Option<usize>)
        ensures
            r matches Some(k) ==> k < self.monitors@.len() && extends(self.monitors@[k as int], host_name@, *base),
            r is None ==> !has_extension(self.monitors@, host_name@, *base),
    {
        let mut k: usize = 0;
        while k < self.monitors.len()
            invariant
                k <= self.monitors@.len(),
                forall|j: int| 0 <= j < k ==> !extends(#[trigger] self.monitors@[j], host_name@, *base),
            decreases self.monitors@.len() - k,
        {
            let slot = &self.monitors[k];
            if slot.host_name == *host_name {
                if let Some(parent) = &slot.parent_module {
                    if parent.equals(base) {
                        return Some(k);
                    }
                }
            }
            k = k + 1;
        }
        None
    }

    /// Refresh the selected monitors of `host`: each base monitor gets the next invocation id
    /// and an invocation that runs it and then its extension, if it has one.
    pub fn refresh_monitors(&mut self, host: &Host, filter: &MonitorFilter) -> (r: Vec<MonitorInvocation<M>>)
        requires
            old(self).wf(),
            old(self).invocation_id_counter + old(self).monitors@.len() <= u64::MAX,
        ensures
            r@.len() == selected_bases(old(self).monitors@, host.name@, *filter, old(self).monitors@.len() as int),
            forall|i: int| 0 <= i < r@.len() ==> (#[trigger] r@[i]).host.same_as(host),
            covers_selected(old(self).monitors@, host.name@, *filter, r@),
            final(self).monitors == old(self).monitors,
            r@.len() <= old(self).monitors@.len(),
            final(self).invocation_id_counter == old(self).invocation_id_counter + r@.len(),
            forall|i: int|
                0 <= i < r@.len() ==> {
                    &&& (#[trigger] r@[i]).wf()
                    &&& r@[i].invocation_id == old(self).invocation_id_counter + i + 1
                    &&& r@[i].stage == 0
                    &&& r@[i].parent_result.criticality == Criticality::Critical
                    &&& r@[i].modules@.len() == (if has_extension(
                        old(self).monitors@,
                        host.name@,
                        r@[i].base_spec,
                    ) {
                        2int
                    } else {
                        1int
                    })
                    &&& exists|j: int|
                        0 <= j < old(self).monitors@.len() && selected(
                            #[trigger] old(self).monitors@[j],
                            host.name@,
                            *filter,
                        ) && is_base(old(self).monitors@[j]) && r@[i].base_spec.same_as(
                            &old(self).monitors@[j].spec,
                        )
                },
            forall|j: int|
                0 <= j < old(self).monitors@.len() && selected(
                    #[trigger] old(self).monitors@[j],
                    host.name@,
                    *filter,
                ) && is_base(old(self).monitors@[j]) ==> exists|i: int|
                    0 <= i < r@.len() && (#[trigger] r@[i]).base_spec.same_as(&old(self).monitors@[j].spec),
    {
        let mut invocations: Vec<MonitorInvocation<M>> = Vec::new();
        let mut k: usize = 0;
        while k < self.monitors.len()
            invariant
                invocations@.len() == selected_bases(old(self).monitors@, host.name@, *filter, k as int),
                forall|i: int| 0 <= i < invocations@.len() ==> (#[trigger] invocations@[i]).host.same_as(host),
                self.monitors == old(self).monitors,
                k <= self.monitors@.len(),
                invocations@.len() <= k,
                self.invocation_id_counter == old(self).invocation_id_counter + invocations@.len(),
                old(self).invocation_id_counter + old(self).monitors@.len() <= u64::MAX,
                forall|i: int|
                    0 <= i < invocations@.len() ==> {
                        &&& (#[trigger] invocations@[i]).wf()
                        &&& invocations@[i].invocation_id == old(self).invocation_id_counter + i + 1
                        &&& invocations@[i].stage == 0
                        &&& invocations@[i].parent_result.criticality == Criticality::Critical
                        &&& invocations@[i].modules@.len() == (if has_extension(
                            old(self).monitors@,
                            host.name@,
                            invocations@[i].base_spec,
                        ) {
                            2int
                        } else {
                            1int
                        })
                        &&& exists|j: int|
                            0 <= j < old(self).monitors@.len() && selected(
                                #[trigger] old(self).monitors@[j],
                                host.name@,
                                *filter,
                            ) && is_base(old(self).monitors@[j]) && invocations@[i].base_spec.same_as(
                                &old(self).monitors@[j].spec,
                            )
                    },
                forall|j: int|
                    0 <= j < k && selected(#[trigger] old(self).monitors@[j], host.name@, *filter)
                        && is_base(old(self).monitors@[j]) ==> exists|i: int|
                        0 <= i < invocations@.len() && (#[trigger] invocations@[i]).base_spec.same_as(
                            &old(self).monitors@[j].spec,
                        ),
            decreases self.monitors@.len() - k,
        {
            let slot = &self.monitors[k];
            if Self::is_selected(slot, &host.name, filter) && slot.parent_module.is_none() {
                let mut modules = Vec::new();
                modules.push(slot.module.clone());
                let extension = self.find_extension(&host.name, &slot.spec);
                if let Some(e) = extension {
                    modules.push(self.monitors[e].module.clone());
                }
                let id = self.invocation_id_counter + 1;
                let inv = Self::new_invocation(host, slot, modules, id);
                proof {
                    assert(has_extension(old(self).monitors@, host.name@, inv.base_spec)
                        == has_extension(old(self).monitors@, host.name@, slot.spec)) by {
                        if has_extension(old(self).monitors@, host.name@, inv.base_spec) {
                            let w = choose|w: int|
                                0 <= w < old(self).monitors@.len() && extends(
                                    #[trigger] old(self).monitors@[w],
                                    host.name@,
                                    inv.base_spec,
                                );
                            assert(extends(old(self).monitors@[w], host.name@, slot.spec));
                        }
                        if has_extension(old(self).monitors@, host.name@, slot.spec) {
                            let w = choose|w: int|
                                0 <= w < old(self).monitors@.len() && extends(
                                    #[trigger] old(self).monitors@[w],
                                    host.name@,
                                    slot.spec,
                                );
                            assert(extends(old(self).monitors@[w], host.name@, inv.base_spec));
                        }
                    }
                }
                let ghost before = invocations@;
                invocations.push(inv);
                self.invocation_id_counter = id;
                proof {
                    let n = invocations@.len() - 1;
                    assert(invocations@[n].base_spec.same_as(&old(self).monitors@[k as int].spec));
                    assert forall|i: int| 0 <= i < invocations@.len() - 1 implies #[trigger] invocations@[i]
                        == before[i] by {}
                    assert forall|j: int|
                        0 <= j < k + 1 && selected(#[trigger] old(self).monitors@[j], host.name@, *filter)
                            && is_base(old(self).monitors@[j]) implies exists|i: int|
                        0 <= i < invocations@.len() && (#[trigger] invocations@[i]).base_spec.same_as(
                            &old(self).monitors@[j].spec,
                        ) by {
                        if j == k {
                            assert(invocations@[n].base_spec.same_as(&old(self).monitors@[j].spec));
                        } else {
                            let i = choose|i: int|
                                0 <= i < before.len() && (#[trigger] before[i]).base_spec.same_as(
                                    &old(self).monitors@[j].spec,
                                );
                            assert(invocations@[i] == before[i]);
                        }
                    }
                }
            }
            k = k + 1;
        }
        assert(covers_selected(old(self).monitors@, host.name@, *filter, invocations@)) by {
            reveal(covers_selected);
        }
        invocations
    }

    pub fn refresh_monitors_of_category(&mut self, host: &Host, category: &String) -> (r: Vec<
        MonitorInvocation<M>,
    >)
        requires
            old(self).wf(),
            old(self).invocation_id_counter + old(self).monitors@.len() <= u64::MAX,
        ensures
            r@.len() == selected_bases(old(self).monitors@, host.name@, MonitorFilter::Category(*category), old(self).monitors@.len() as int),
            covers_selected(old(self).monitors@, host.name@, MonitorFilter::Category(*category), r@),
            final(self).monitors == old(self).monitors,
            final(self).invocation_id_counter == old(self).invocation_id_counter + r@.len(),
            numbered_from(old(self).invocation_id_counter as int, invocation_ids(r@)),
            forall|i: int|
                0 <= i < r@.len() ==> (#[trigger] r@[i]).invocation_id == old(self).invocation_id_counter
                    + i + 1,
    {
        let r = self.refresh_monitors(host, &MonitorFilter::Category(category.clone()));
        assert(numbered_from(old(self).invocation_id_counter as int, invocation_ids(r@)));
        r
    }

    pub fn refresh_monitors_by_id(&mut self, host: &Host, monitor_id: &String) -> (r: Vec<
        MonitorInvocation<M>,
    >)
        requires
            old(self).wf(),
            old(self).invocation_id_counter + old(self).monitors@.len() <= u64::MAX,
        ensures
            r@.len() == selected_bases(old(self).monitors@, host.name@, MonitorFilter::Id(*monitor_id), old(self).monitors@.len() as int),
            covers_selected(old(self).monitors@, host.name@, MonitorFilter::Id(*monitor_id), r@),
            final(self).monitors == old(self).monitors,
            final(self).invocation_id_counter == old(self).invocation_id_counter + r@.len(),
            numbered_from(old(self).invocation_id_counter as int, invocation_ids(r@)),
            forall|i: int|
                0 <= i < r@.len() ==> (#[trigger] r@[i]).invocation_id == old(self).invocation_id_counter
                    + i + 1,
    {
        let r = self.refresh_monitors(host, &MonitorFilter::Id(monitor_id.clone()));
        assert(numbered_from(old(self).invocation_id_counter as int, invocation_ids(r@)));
        r
    }

    pub fn refresh_host_monitors(&mut self, host: &Host) -> (r: Vec<MonitorInvocation<M>>)
        requires
            old(self).wf(),
            old(self).invocation_id_counter + old(self).monitors@.len() <= u64::MAX,
        ensures
            r@.len() == selected_bases(old(self).monitors@, host.name@, MonitorFilter::All, old(self).monitors@.len() as int),
            forall|i: int| 0 <= i < r@.len() ==> (#[trigger] r@[i]).host.same_as(host),
            r@.len() <= old(self).monitors@.len(),
            covers_selected(old(self).monitors@, host.name@, MonitorFilter::All, r@),
            final(self).monitors == old(self).monitors,
            final(self).invocation_id_counter == old(self).invocation_id_counter + r@.len(),
            numbered_from(old(self).invocation_id_counter as int, invocation_ids(r@)),
            forall|i: int|
                0 <= i < r@.len() ==> (#[trigger] r@[i]).invocation_id == old(self).invocation_id_counter
                    + i + 1,
    {
        let r = self.refresh_monitors(host, &MonitorFilter::All);
        assert(numbered_from(old(self).invocation_id_counter as int, invocation_ids(r@)));
        r
    }

    /// Refresh every monitor of each of `hosts`, in order; the ids run on across hosts.
    pub fn refresh_all_hosts(&mut self, hosts: &Vec<Host>) -> (r: Vec<MonitorInvocation<M>>)
        requires
            old(self).wf(),
            old(self).invocation_id_counter + hosts@.len() * old(self).monitors@.len() <= u64::MAX,
        ensures
            hosts_covered(old(self).monitors@, hosts@, hosts@.len() as int, r@),
            final(self).monitors == old(self).monitors,
            final(self).invocation_id_counter == old(self).invocation_id_counter + r@.len(),
            numbered_from(old(self).invocation_id_counter as int, invocation_ids(r@)),
    {
        let mut all: Vec<MonitorInvocation<M>> = Vec::new();
        let mut h: usize = 0;
        assert(hosts_covered(self.monitors@, hosts@, 0, all@)) by {
            reveal(hosts_covered);
        }
        while h < hosts.len()
            invariant
                hosts_covered(old(self).monitors@, hosts@, h as int, all@),
                self.wf(),
                self.monitors == old(self).monitors,
                h <= hosts@.len(),
                all@.len() <= h * self.monitors@.len(),
                self.invocation_id_counter == old(self).invocation_id_counter + all@.len(),
                old(self).invocation_id_counter + hosts@.len() * old(self).monitors@.len() <= u64::MAX,
                numbered_from(old(self).invocation_id_counter as int, invocation_ids(all@)),
            decreases hosts@.len() - h,
        {
            proof {
                assert((h + 1) * self.monitors@.len() <= hosts@.len() * self.monitors@.len()) by (nonlinear_arith)
                    requires
                        h + 1 <= hosts@.len(),
                ;
                assert((h + 1) * self.monitors@.len() == h * self.monitors@.len() + self.monitors@.len()) by (nonlinear_arith);
            }
            let ghost before = all@;
            let mut next = self.refresh_host_monitors(&hosts[h]);
            let ghost added = next@;
            all.append(&mut next);
            proof {
                assert(all@ =~= before + added);
                lemma_hosts_covered_step(old(self).monitors@, hosts@, h as int, before, added);
                assert forall|i: int| 0 <= i < all@.len() implies #[trigger] invocation_ids(all@)[i]
                    == old(self).invocation_id_counter + i + 1 by {
                    if i < before.len() {
                        assert(invocation_ids(before)[i] == before[i].invocation_id);
                    } else {
                        assert(invocation_ids(added)[i - before.len()] == added[i - before.len()].invocation_id);
                    }
                }
            }
            h = h + 1;
        }
        all
    }

    /// Refresh the platform info of each of `hosts` that has a monitor on the `ssh` connector;
    /// the ids run on across hosts.
    pub fn refresh_platform_info_all(&mut self, hosts: &Vec<Host>, info_provider: &M) -> (r: Vec<MonitorInvocation<M>>)
        requires
            old(self).invocation_id_counter + hosts@.len() <= u64::MAX,
        ensures
            final(self).monitors == old(self).monitors,
            r@.len() <= hosts@.len(),
            final(self).invocation_id_counter == old(self).invocation_id_counter + r@.len(),
            numbered_from(old(self).invocation_id_counter as int, invocation_ids(r@)),
            r@.len() == old(self).ssh_host_count(hosts@, hosts@.len() as int),
            forall|h: int|
                0 <= h < hosts@.len() && old(self).uses_ssh(#[trigger] hosts@[h].name@) ==> exists|i: int|
                    0 <= i < r@.len() && (#[trigger] r@[i]).host.same_as(&hosts@[h]),
            forall|i: int| 0 <= i < r@.len() ==> old(self).uses_ssh((#[trigger] r@[i]).host.name@),
    {
        let mut all: Vec<MonitorInvocation<M>> = Vec::new();
        let mut h: usize = 0;
        while h < hosts.len()
            invariant
                self.monitors == old(self).monitors,
                h <= hosts@.len(),
                all@.len() <= h,
                self.invocation_id_counter == old(self).invocation_id_counter + all@.len(),
                old(self).invocation_id_counter + hosts@.len() <= u64::MAX,
                numbered_from(old(self).invocation_id_counter as int, invocation_ids(all@)),
                all@.len() == old(self).ssh_host_count(hosts@, h as int),
                forall|a: int|
                    0 <= a < h && old(self).uses_ssh(#[trigger] hosts@[a].name@) ==> exists|i: int|
                        0 <= i < all@.len() && (#[trigger] all@[i]).host.same_as(&hosts@[a]),
                forall|i: int| 0 <= i < all@.len() ==> old(self).uses_ssh((#[trigger] all@[i]).host.name@),
            decreases hosts@.len() - h,
        {
            match self.refresh_platform_info(&hosts[h], info_provider.clone()) {
                Some(inv) => {
                    let ghost before = all@;
                    all.push(inv);
                    proof {
                        assert forall|i: int| 0 <= i < all@.len() implies #[trigger] invocation_ids(all@)[i]
                            == old(self).invocation_id_counter + i + 1 by {
                            if i < before.len() {
                                assert(invocation_ids(before)[i] == before[i].invocation_id);
                                assert(all@[i] == before[i]);
                            }
                        }
                        assert forall|a: int|
                            0 <= a < h + 1 && old(self).uses_ssh(#[trigger] hosts@[a].name@) implies exists|i: int|
                            0 <= i < all@.len() && (#[trigger] all@[i]).host.same_as(&hosts@[a]) by {
                            if a < h {
                                let i = choose|i: int| 0 <= i < before.len() && (#[trigger] before[i]).host.same_as(&hosts@[a]);
                                assert(all@[i] == before[i]);
                            } else {
                                assert(all@[before.len() as int].host.same_as(&hosts@[a]));
                            }
                        }
                        assert forall|i: int| 0 <= i < all@.len() implies old(self).uses_ssh((#[trigger] all@[i]).host.name@) by {
                            if i < before.len() {
                                assert(all@[i] == before[i]);
                            }
                        }
                    }
                },
                None => {},
            }
            proof {
                assert(hosts@.subrange(0, h as int + 1).drop_last() =~= hosts@.subrange(0, h as int));
            }
            h = h + 1;
        }
        all
    }

    /// How many of the first `n` hosts have a monitor on the `ssh` connector.
    pub open spec fn ssh_host_count(&self, hosts: Seq<Host>, n: int) -> nat
        decreases n,
    {
        if n <= 0 {
            0
        } else {
            self.ssh_host_count(hosts, n - 1) + (if self.uses_ssh(hosts[n - 1].name@) {
                1nat
            } else {
                0nat
            })
        }
    }

    pub open spec fn uses_ssh(&self, host_name: Seq<char>) -> bool {
        exists|k: int|
            0 <= k < self.monitors@.len() && (#[trigger] self.monitors@[k]).host_name@ == host_name
                && slot_uses_ssh(self.monitors@[k])
    }

    /// Refresh the platform info of `host` with `info_provider`, if any of the host's monitors
    /// uses the `ssh` connector.
    pub fn refresh_platform_info(&mut self, host: &Host, info_provider: M) -> (r: Option<
        MonitorInvocation<M>,
    >)
        requires
            old(self).invocation_id_counter < u64::MAX,
        ensures
            final(self).monitors == old(self).monitors,
            r is Some <==> old(self).uses_ssh(host.name@),
            r matches Some(inv) ==> inv.wf() && inv.invocation_id == old(self).invocation_id_counter
                + 1 && inv.modules@.len() == 1 && inv.host.same_as(host),
            final(self).invocation_id_counter == (if r is Some {
                old(self).invocation_id_counter + 1
            } else {
                old(self).invocation_id_counter as int
            }),
    {
        proof {
            reveal_strlit("ssh");
        }
        let ssh = String::from_str("ssh");
        let mut k: usize = 0;
        let mut found = false;
        while k < self.monitors.len()
            invariant
                k <= self.monitors@.len(),
                ssh@ == "ssh"@,
                !found ==> forall|j: int|
                    0 <= j < k ==> !((#[trigger] self.monitors@[j]).host_name@ == host.name@
                        && slot_uses_ssh(self.monitors@[j])),
                found ==> self.uses_ssh(host.name@),
            decreases self.monitors@.len() - k,
        {
            let slot = &self.monitors[k];
            if slot.host_name == host.name {
                if let Some(c) = &slot.connector_spec {
                    if c.id == ssh {
                        found = true;
                        assert(self.monitors@[k as int].host_name@ == host.name@);
                    }
                }
            }
            k = k + 1;
        }
        if !found {
            return None;
        }
        self.invocation_id_counter = self.invocation_id_counter + 1;
        let mut modules = Vec::new();
        let spec = info_provider.get_module_spec();
        let display_options = info_provider.get_display_options();
        modules.push(info_provider);
        Some(
            MonitorInvocation {
                host: host.duplicate(),
                invocation_id: self.invocation_id_counter,
                base_spec: spec,
                display_options,
                modules,
                stage: 0,
                parent_result: DataPoint::empty_and_critical(),
            },
        )
    }
}

} // verus!
