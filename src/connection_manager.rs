use vstd::prelude::*;

use crate::data::{Host, HostSetting, ModuleSpecification, ResponseMessage};

verus! {

/// A reusable session of one wire protocol to one host. Implemented by connector modules.
pub trait Connector {
    fn get_module_spec(&self) -> ModuleSpecification;

    fn is_connected(&self) -> bool;

    fn connect(&mut self, address: &String) -> Result<(), String>;

    fn send_message(&mut self, message: &String) -> Result<ResponseMessage, String>;

    fn download_file(&mut self, remote_path: &String) -> Result<Vec<u8>, String>;

    fn upload_file(&mut self, remote_path: &String, contents: Vec<u8>) -> Result<(), String>;
}

/// What the local copy of a transferred file records of its origin.
#[derive(Clone, Debug)]
pub struct FileMetadata {
    pub remote_path: String,
    /// The local copy is removed after a successful upload.
    pub temporary: bool,
}

/// The local staging area for downloaded and uploaded files.
pub trait FileStore {
    /// Store `contents` as the local copy of `remote_path` on `host`; returns the local path.
    fn create_file(&mut self, host: &Host, remote_path: &String, contents: Vec<u8>) -> Result<String, String>;

    fn read_file(&self, local_path: &String) -> Result<(FileMetadata, Vec<u8>), String>;

    fn remove_file(&mut self, local_path: &String) -> Result<(), String>;
}

#[derive(Clone, Copy, Debug, PartialEq, Eq, Structural)]
pub enum RequestType {
    Command,
    Download,
    Upload,
    Exit,
}

#[derive(Clone, Copy, Debug, PartialEq, Eq, Structural)]
pub enum CachePolicy {
    UseCache,
    BypassCache,
}

/// Work for the connection worker: messages to send over the connector `connector_spec`
/// of `host`. A request without a connector needs no I/O and is answered with no responses.
#[derive(Clone, Debug)]
pub struct ConnectorRequest {
    pub connector_spec: Option<ModuleSpecification>,
    pub source_id: String,
    pub host: Host,
    pub messages: Vec<String>,
    pub request_type: RequestType,
    pub cache_policy: CachePolicy,
}

impl ConnectorRequest {
    /// The request that makes the connection worker stop.
    pub fn exit_token() -> (r: ConnectorRequest)
        ensures
            r.request_type == RequestType::Exit,
            r.connector_spec.is_none(),
            r.source_id@.len() == 0,
            r.messages@.len() == 0,
            r.host.ip_address@ == "127.0.0.1"@,
    {
        let settings: Vec<HostSetting> = Vec::new();
        ConnectorRequest {
            connector_spec: None,
            source_id: String::new(),
            host: Host::new(String::new(), String::from_str("127.0.0.1"), String::new(), settings),
            messages: Vec::new(),
            request_type: RequestType::Exit,
            cache_policy: CachePolicy::BypassCache,
        }
    }
}

/// What the worker does with a request: stop, or hand these responses to the request's handler.
pub enum RequestOutcome {
    Exit,
    Respond(Vec<Result<ResponseMessage, String>>),
}

/// A response after which a command request sends nothing more.
pub open spec fn stops_request(r: Result<ResponseMessage, String>) -> bool {
    match r {
        Ok(m) => m.return_code != 0,
        Err(_) => true,
    }
}

/// The responses of a command request of `n` messages: one per message sent, in order,
/// stopping right after the first error or non-zero return code.
pub open spec fn short_circuited(n: nat, rs: Seq<Result<ResponseMessage, String>>) -> bool {
    &&& rs.len() <= n
    &&& (n > 0 ==> rs.len() > 0)
    &&& forall|i: int| 0 <= i < rs.len() - 1 ==> !stops_request(#[trigger] rs[i])
    &&& (rs.len() < n ==> stops_request(rs.last()))
}

/// The progress of a command request: the responses so far, and whether the last one stops
/// the request.
pub struct CommandRun {
    pub responses: Vec<Result<ResponseMessage, String>>,
    pub stopped: bool,
}

impl CommandRun {
    pub open spec fn wf(&self) -> bool {
        &&& forall|i: int| 0 <= i < self.responses@.len() - 1 ==> !stops_request(#[trigger] self.responses@[i])
        &&& self.stopped == (self.responses@.len() > 0 && stops_request(self.responses@.last()))
    }

    pub fn new() -> (r: CommandRun)
        ensures
            r.wf(),
            r.responses@.len() == 0,
            !r.stopped,
    {
        CommandRun { responses: Vec::new(), stopped: false }
    }

    /// The index of the message to send next out of `n`: the one after the last response,
    /// or none once a response has stopped the request or all were sent.
    pub fn next_index(&self, n: usize) -> (r: Option<usize>)
        ensures
            r == (if !self.stopped && self.responses@.len() < n {
                Some(self.responses@.len() as usize)
            } else {
                None::<usize>
            }),
    {
        if !self.stopped && self.responses.len() < n {
            Some(self.responses.len())
        } else {
            None
        }
    }

    /// Record what the connector answered to the message just sent.
    pub fn record(&mut self, response: Result<ResponseMessage, String>)
        requires
            old(self).wf(),
            !old(self).stopped,
        ensures
            final(self).wf(),
            final(self).responses@ == old(self).responses@.push(response),
            final(self).stopped == stops_request(response),
    {
        let stop = match &response {
            Ok(m) => m.return_code != 0,
            Err(_) => true,
        };
        self.responses.push(response);
        self.stopped = stop;
    }
}

/// Send each message in order, handing each response to a `CommandRun`; stop after the first
/// one that fails or returns a non-zero code.
pub fn serve_commands<C: Connector>(connector: &mut C, messages: &Vec<String>) -> (r: Vec<
    Result<ResponseMessage, String>,
>)
    ensures
        short_circuited(messages@.len(), r@),
{
    let n = messages.len();
    let mut run = CommandRun::new();
    let mut next = run.next_index(n);
    while next.is_some()
        invariant
            n == messages@.len(),
            run.wf(),
            run.responses@.len() <= n,
            next == (if !run.stopped && run.responses@.len() < n {
                Some(run.responses@.len() as usize)
            } else {
                None::<usize>
            }),
        decreases n - run.responses@.len(),
    {
        let i = next.unwrap();
        let response = connector.send_message(&messages[i]);
        run.record(response);
        next = run.next_index(n);
    }
    run.responses
}

/// The response of one download: the staged local path, or the error of the download or of
/// staging the file.
pub open spec fn download_answer(staged: Result<String, String>) -> Result<ResponseMessage, String> {
    match staged {
        Ok(path) => Ok(ResponseMessage { message: path, return_code: 0, is_error: false }),
        Err(e) => Err(e),
    }
}

pub fn download_response(staged: Result<String, String>) -> (r: Result<ResponseMessage, String>)
    ensures
        r == download_answer(staged),
{
    match staged {
        Ok(path) => Ok(ResponseMessage::new(path)),
        Err(e) => Err(e),
    }
}

/// The progress of a download or upload request: one response per message, in order.
pub struct TransferRun {
    pub responses: Vec<Result<ResponseMessage, String>>,
}

impl TransferRun {
    pub fn new() -> (r: TransferRun)
        ensures
            r.responses@.len() == 0,
    {
        TransferRun { responses: Vec::new() }
    }

    /// The index of the message to transfer next out of `n`: the one after the last response.
    pub fn next_index(&self, n: usize) -> (r: Option<usize>)
        ensures
            r == (if self.responses@.len() < n {
                Some(self.responses@.len() as usize)
            } else {
                None::<usize>
            }),
    {
        if self.responses.len() < n {
            Some(self.responses.len())
        } else {
            None
        }
    }

    /// Record the answer to the message just transferred.
    pub fn record(&mut self, response: Result<ResponseMessage, String>)
        ensures
            final(self).responses@ == old(self).responses@.push(response),
    {
        self.responses.push(response);
    }
}

/// Download each remote path and stage it locally; response `i` answers message `i`, and carries
/// the local path.
pub fn serve_downloads<C: Connector, F: FileStore>(
    connector: &mut C,
    files: &mut F,
    host: &Host,
    messages: &Vec<String>,
) -> (r: Vec<Result<ResponseMessage, String>>)
    ensures
        r@.len() == messages@.len(),
{
    let n = messages.len();
    let mut run = TransferRun::new();
    let mut next = run.next_index(n);
    while next.is_some()
        invariant
            n == messages@.len(),
            run.responses@.len() <= n,
            next == (if run.responses@.len() < n {
                Some(run.responses@.len() as usize)
            } else {
                None::<usize>
            }),
        decreases n - run.responses@.len(),
    {
        let i = next.unwrap();
        let staged = match connector.download_file(&messages[i]) {
            Ok(contents) => files.create_file(host, &messages[i], contents),
            Err(e) => Err(e),
        };
        run.record(download_response(staged));
        next = run.next_index(n);
    }
    run.responses
}

/// Whether the staged copy is removed after an upload: only a temporary one, once uploaded.
pub fn removes_local_copy(uploaded: &Result<(), String>, metadata: &FileMetadata) -> (r: bool)
    ensures
        r == (uploaded is Ok && metadata.temporary),
{
    uploaded.is_ok() && metadata.temporary
}

/// The response of one upload: empty on success; the upload's error, or else the error of
/// removing the staged copy.
pub fn upload_response(uploaded: Result<(), String>, removed: Option<Result<(), String>>) -> (r: Result<
    ResponseMessage,
    String,
>)
    ensures
        match uploaded {
            Err(e) => r == Err::<ResponseMessage, String>(e),
            Ok(()) => match removed {
                Some(Err(e)) => r == Err::<ResponseMessage, String>(e),
                _ => r matches Ok(m) && m.message@.len() == 0 && m.return_code == 0 && !m.is_error,
            },
        },
{
    match uploaded {
        Err(e) => Err(e),
        Ok(()) => match removed {
            Some(Err(e)) => Err(e),
            _ => Ok(ResponseMessage::empty()),
        },
    }
}

/// Upload each staged local file to the remote path its metadata names; response `i` answers
/// message `i`. A temporary local copy is removed after a successful upload.
pub fn serve_uploads<C: Connector, F: FileStore>(
    connector: &mut C,
    files: &mut F,
    messages: &Vec<String>,
) -> (r: Vec<Result<ResponseMessage, String>>)
    ensures
        r@.len() == messages@.len(),
{
    let n = messages.len();
    let mut run = TransferRun::new();
    let mut next = run.next_index(n);
    while next.is_some()
        invariant
            n == messages@.len(),
            run.responses@.len() <= n,
            next == (if run.responses@.len() < n {
                Some(run.responses@.len() as usize)
            } else {
                None::<usize>
            }),
        decreases n - run.responses@.len(),
    {
        let i = next.unwrap();
        let response = match files.read_file(&messages[i]) {
            Ok((metadata, contents)) => {
                let uploaded = connector.upload_file(&metadata.remote_path, contents);
                let removed = if removes_local_copy(&uploaded, &metadata) {
                    Some(files.remove_file(&messages[i]))
                } else {
                    None
                };
                upload_response(uploaded, removed)
            },
            Err(e) => Err(e),
        };
        run.record(response);
        next = run.next_index(n);
    }
    run.responses
}

/// The address to (re)connect to: the host's IP address.
pub fn connect_address(request: &ConnectorRequest) -> (r: &String)
    ensures
        *r == request.host.ip_address,
{
    &request.host.ip_address
}

/// What a (re)connection attempt leaves to do: a failed one answers the request with that one
/// error and sends nothing; a successful one goes on to the messages.
pub fn connect_outcome(connected: Result<(), String>) -> (r: Option<Vec<Result<ResponseMessage, String>>>)
    ensures
        match connected {
            Ok(()) => r is None,
            Err(e) => r matches Some(rs) && rs@ == seq![Err::<ResponseMessage, String>(e)],
        },
{
    match connected {
        Ok(()) => None,
        Err(e) => {
            let mut rs = Vec::new();
            rs.push(Err(e));
            assert(rs@ =~= seq![Err::<ResponseMessage, String>(e)]);
            Some(rs)
        },
    }
}

pub struct ConnectorEntry<C> {
    pub host_name: String,
    pub spec: ModuleSpecification,
    pub connector: C,
}

pub open spec fn entry_key<C>(e: ConnectorEntry<C>) -> (Seq<char>, Seq<char>, Seq<char>) {
    (e.host_name@, e.spec.id@, e.spec.version@)
}

pub open spec fn has_connector<C>(
    entries: Seq<ConnectorEntry<C>>,
    host_name: Seq<char>,
    spec: ModuleSpecification,
) -> bool {
    exists|i: int|
        0 <= i < entries.len() && entry_key(#[trigger] entries[i]) == (
        host_name,
        spec.id@,
        spec.version@,
    )
}

/// The same connectors under the same keys, in the same places.
pub open spec fn same_keys<C>(a: Seq<ConnectorEntry<C>>, b: Seq<ConnectorEntry<C>>) -> bool {
    a.len() == b.len() && forall|i: int| 0 <= i < a.len() ==> entry_key(#[trigger] a[i]) == entry_key(b[i])
}

/// The connector sessions of all hosts: at most one per host and connector specification.
pub struct ConnectorTable<C> {
    pub entries: Vec<ConnectorEntry<C>>,
}

impl<C: Connector> ConnectorTable<C> {
    pub open spec fn wf(&self) -> bool {
        forall|i: int, j: int|
            0 <= i < self.entries@.len() && 0 <= j < self.entries@.len() && i != j ==> entry_key(
                #[trigger] self.entries@[i],
            ) != entry_key(#[trigger] self.entries@[j])
    }

    pub fn new() -> (r: ConnectorTable<C>)
        ensures
            r.wf(),
            r.entries@.len() == 0,
    {
        ConnectorTable { entries: Vec::new() }
    }

    pub fn find(&self, host_name: &String, spec: &ModuleSpecification) -> (r: Option<usize>)
        ensures
            r matches Some(i) ==> i < self.entries@.len() && entry_key(self.entries@[i as int]) == (
            host_name@,
            spec.id@,
            spec.version@,
            ),
            r is None ==> !has_connector(self.entries@, host_name@, *spec),
    {
        let mut i: usize = 0;
        while i < self.entries.len()
            invariant
                i <= self.entries@.len(),
                forall|k: int|
                    0 <= k < i ==> entry_key(#[trigger] self.entries@[k]) != (
                    host_name@,
                    spec.id@,
                    spec.version@,
                    ),
            decreases self.entries@.len() - i,
        {
            let e = &self.entries[i];
            if e.host_name == *host_name && e.spec.id == spec.id && e.spec.version == spec.version {
                return Some(i);
            }
            i = i + 1;
        }
        None
    }

    /// Add a connector for `host` under the specification it reports, unless that host
    /// already has one under it. Returns whether it was added.
    pub fn add_connector(&mut self, host: &Host, connector: C) -> (r: bool)
        requires
            old(self).wf(),
        ensures
            final(self).wf(),
            exists|spec: ModuleSpecification|
                {
                    &&& (r <==> !has_connector(old(self).entries@, host.name@, spec))
                    &&& (!r ==> final(self).entries == old(self).entries)
                    &&& (r ==> final(self).entries@ == old(self).entries@.push(
                        ConnectorEntry { host_name: final(self).entries@.last().host_name, spec, connector },
                    ) && final(self).entries@.last().host_name@ == host.name@)
                },
    {
        let spec = connector.get_module_spec();
        if let Some(i) = self.find(&host.name, &spec) {
            assert(entry_key(self.entries@[i as int]) == (host.name@, spec.id@, spec.version@));
            assert(has_connector(old(self).entries@, host.name@, spec));
            return false;
        }
        let ghost s = spec;
        self.entries.push(ConnectorEntry { host_name: host.name.clone(), spec, connector });
        proof {
            let n = old(self).entries@.len() as int;
            assert(self.entries@ =~= old(self).entries@.push(
                ConnectorEntry { host_name: self.entries@.last().host_name, spec: s, connector },
            ));
        }
        true
    }

    /// Serve one request: the exit token stops the worker; a request without a connector is
    /// answered with no responses; otherwise the host's connector is (re)connected if needed
    /// (a failure gives a single error) and the messages are served by request type.
    pub fn serve_request<F: FileStore>(&mut self, files: &mut F, request: &ConnectorRequest) -> (r:
        RequestOutcome)
        requires
            old(self).wf(),
        ensures
            final(self).wf(),
            same_keys(old(self).entries@, final(self).entries@),
            r is Exit <==> request.request_type == RequestType::Exit,
            request.request_type == RequestType::Exit || request.connector_spec is None ==> final(self).entries
                == old(self).entries,
            request.request_type != RequestType::Exit && (request.connector_spec matches Some(s)
                && !has_connector(old(self).entries@, request.host.name@, s)) ==> (r matches RequestOutcome::Respond(rs)
                && rs@.len() == 1 && rs@[0] is Err && final(self).entries == old(self).entries),
            request.request_type != RequestType::Exit && request.connector_spec is None ==> (
            r matches RequestOutcome::Respond(rs) && rs@.len() == 0),
            r matches RequestOutcome::Respond(rs) ==> {
                let n = request.messages@.len();
                ||| (request.connector_spec is None && rs@.len() == 0)
                ||| (rs@.len() == 1 && rs@[0] is Err)
                ||| (request.request_type == RequestType::Command && short_circuited(n, rs@))
                ||| (request.request_type != RequestType::Command && rs@.len() == n)
            },
    {
        if request.request_type == RequestType::Exit {
            return RequestOutcome::Exit;
        }
        let spec = match &request.connector_spec {
            None => {
                return RequestOutcome::Respond(Vec::new());
            },
            Some(spec) => spec,
        };
        let i = match self.find(&request.host.name, spec) {
            None => {
                let mut rs = Vec::new();
                rs.push(Err(String::from_str("No connector for the request")));
                return RequestOutcome::Respond(rs);
            },
            Some(i) => i,
        };
        if !self.entries[i].connector.is_connected() {
            let connected = self.entries[i].connector.connect(connect_address(request));
            assert(same_keys(old(self).entries@, self.entries@));
            if let Some(rs) = connect_outcome(connected) {
                return RequestOutcome::Respond(rs);
            }
        }
        let responses = match request.request_type {
            RequestType::Command => serve_commands(&mut self.entries[i].connector, &request.messages),
            RequestType::Download => serve_downloads(
                &mut self.entries[i].connector,
                files,
                &request.host,
                &request.messages,
            ),
            _ => serve_uploads(&mut self.entries[i].connector, files, &request.messages),
        };
        assert(same_keys(old(self).entries@, self.entries@));
        RequestOutcome::Respond(responses)
    }
}

} // verus!
