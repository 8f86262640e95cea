use vstd::prelude::*;

use crate::data::{current_timestamp, Criticality, DataPoint, DisplayOptions, Host, ModuleSpecification, ResponseMessage};
use crate::error::LkError;
use crate::modules::{strings_view, MonitoringModule};

verus! {

/// The pieces of `s` between the separators `sep`: `"a|b"` gives `["a", "b"]`, `""` gives `[""]`.
pub open spec fn split_on(s: Seq<char>, sep: char) -> Seq<Seq<char>>
    decreases s.len(),
{
    if s.len() == 0 {
        seq![Seq::empty()]
    } else {
        let rest = split_on(s.drop_last(), sep);
        if s.last() == sep {
            rest.push(Seq::empty())
        } else {
            rest.update(rest.len() - 1, rest.last().push(s.last()))
        }
    }
}

pub proof fn lemma_split_on_not_empty(s: Seq<char>, sep: char)
    ensures
        split_on(s, sep).len() >= 1,
    decreases s.len(),
{
    if s.len() > 0 {
        lemma_split_on_not_empty(s.drop_last(), sep);
    }
}

/// The lines of `s`: the pieces between newlines, without a last empty one.
pub open spec fn text_lines(s: Seq<char>) -> Seq<Seq<char>> {
    let pieces = split_on(s, '\n');
    if pieces.last().len() == 0 {
        pieces.drop_last()
    } else {
        pieces
    }
}

/// `s` without its leading spaces and tabs.
pub open spec fn trim_leading(s: Seq<char>) -> Seq<char>
    decreases s.len(),
{
    if s.len() > 0 && (s[0] == ' ' || s[0] == '\t') {
        trim_leading(s.drop_first())
    } else {
        s
    }
}

/// Split `text` at each `sep`.
pub fn split_text(text: &str, sep: char) -> (r: Vec<String>)
    ensures
        strings_view(r@) == split_on(text@, sep),
{
    let n = text.unicode_len();
    let mut pieces: Vec<String> = Vec::new();
    let mut start: usize = 0;
    let mut i: usize = 0;
    assert(text@.subrange(0, 0) =~= Seq::<char>::empty());
    assert(strings_view(pieces@).push(text@.subrange(0, 0)) =~= seq![Seq::<char>::empty()]);
    while i < n
        invariant
            n == text@.len(),
            start <= i <= n,
            strings_view(pieces@).push(text@.subrange(start as int, i as int)) == split_on(
                text@.subrange(0, i as int),
                sep,
            ),
        decreases n - i,
    {
        let c = text.get_char(i);
        proof {
            let s = text@.subrange(0, i as int + 1);
            assert(s.drop_last() =~= text@.subrange(0, i as int));
            assert(s.last() == c);
            lemma_split_on_not_empty(s.drop_last(), sep);
        }
        if c == sep {
            let ghost before = pieces@;
            let piece = String::from_str(text.substring_char(start, i));
            pieces.push(piece);
            assert(strings_view(pieces@) =~= strings_view(before).push(text@.subrange(start as int, i as int)));
            start = i + 1;
            assert(text@.subrange(start as int, i as int + 1) =~= Seq::<char>::empty());
        } else {
            assert(text@.subrange(start as int, i as int + 1) =~= text@.subrange(start as int, i as int).push(c));
        }
        i = i + 1;
    }
    let ghost before = pieces@;
    pieces.push(String::from_str(text.substring_char(start, n)));
    assert(strings_view(pieces@) =~= strings_view(before).push(text@.subrange(start as int, n as int)));
    assert(text@.subrange(0, n as int) =~= text@);
    pieces
}

/// `text` without its leading spaces and tabs.
pub fn trim_start(text: &str) -> (r: String)
    ensures
        r@ == trim_leading(text@),
{
    let n = text.unicode_len();
    let mut k: usize = 0;
    assert(text@.subrange(0, n as int) =~= text@);
    while k < n && (text.get_char(k) == ' ' || text.get_char(k) == '\t')
        invariant
            n == text@.len(),
            k <= n,
            trim_leading(text@) == trim_leading(text@.subrange(k as int, n as int)),
        decreases n - k,
    {
        proof {
            let rest = text@.subrange(k as int, n as int);
            assert(rest.drop_first() =~= text@.subrange(k as int + 1, n as int));
        }
        k = k + 1;
    }
    proof {
        let rest = text@.subrange(k as int, n as int);
        if k < n {
            assert(rest[0] == text@[k as int]);
        }
    }
    assert(text@.subrange(0, n as int) =~= text@);
    String::from_str(text.substring_char(k, n))
}

/// A line of `pvs` output: name, attributes (at least three) and size, separated by `|`.
pub open spec fn pv_line_ok(line: Seq<char>) -> bool {
    let parts = split_on(line, '|');
    parts.len() >= 3 && parts[1].len() >= 3
}

/// The third attribute character `m` marks a missing volume.
pub open spec fn pv_missing(line: Seq<char>) -> bool {
    split_on(line, '|')[1][2] == 'm'
}

/// The data point of one volume line.
pub open spec fn pv_point_matches(d: DataPoint, line: Seq<char>) -> bool {
    let parts = split_on(line, '|');
    &&& d.label@ == trim_leading(parts[0])
    &&& d.value@ == (if pv_missing(line) {
        "Missing"@
    } else {
        "OK"@
    })
    &&& d.criticality == (if pv_missing(line) {
        Criticality::Critical
    } else {
        Criticality::Normal
    })
    &&& d.description@ == "size: "@ + parts[2]
    &&& strings_view(d.command_params@) == seq![trim_leading(parts[0])]
}

fn parse_pv_line(line: &String) -> (r: Option<DataPoint>)
    ensures
        r is Some <==> pv_line_ok(line@),
        r matches Some(d) ==> pv_point_matches(d, line@),
{
    proof {
        reveal_strlit("Missing");
        reveal_strlit("OK");
    }
    let parts = split_text(line.as_str(), '|');
    if parts.len() < 3 {
        return None;
    }
    let attributes = parts[1].as_str();
    if attributes.unicode_len() < 3 {
        return None;
    }
    let name = trim_start(parts[0].as_str());
    let missing = attributes.get_char(2) == 'm';
    let mut point = DataPoint::labeled(name.clone(), String::from_str(if missing {
        "Missing"
    } else {
        "OK"
    }));
    if missing {
        point.criticality = Criticality::Critical;
    }
    let mut description = String::from_str("size: ");
    description.append(parts[2].as_str());
    point.description = description;
    let mut params = Vec::new();
    params.push(name);
    point.command_params = params;
    proof {
        assert(strings_view(point.command_params@) =~= seq![trim_leading(split_on(line@, '|')[0])]);
    }
    Some(point)
}

/// Read the output of `pvs`: after the header line, each line gives one child point, marked
/// critical when the volume is missing. Output without data gives a point without children.
pub fn parse_physical_volumes(response: &ResponseMessage) -> (r: Result<DataPoint, LkError>)
    ensures
        r is Ok <==> forall|k: int|
            1 <= k < text_lines(response.message@).len() ==> pv_line_ok(
                #[trigger] text_lines(response.message@)[k],
            ),
        r matches Ok(d) ==> {
            let lines = text_lines(response.message@);
            &&& d.criticality == Criticality::Normal
            &&& d.multivalue@.len() == (if lines.len() > 0 {
                lines.len() - 1
            } else {
                0
            })
            &&& forall|k: int|
                0 <= k < d.multivalue@.len() ==> pv_point_matches(#[trigger] d.multivalue@[k], lines[k + 1])
        },
{
    let mut lines = split_text(response.message.as_str(), '\n');
    proof {
        lemma_split_on_not_empty(response.message@, '\n');
    }
    if lines[lines.len() - 1].as_str().is_empty() {
        let ghost before = lines@;
        lines.pop();
        assert(strings_view(lines@) =~= strings_view(before).drop_last());
    }
    let ghost ls = text_lines(response.message@);
    assert(strings_view(lines@) == ls);
    let mut result = DataPoint::empty();
    let mut k: usize = 1;
    while k < lines.len()
        invariant
            strings_view(lines@) == ls,
            ls == text_lines(response.message@),
            1 <= k,
            k <= lines@.len() || (lines@.len() == 0 && k == 1),
            result.criticality == Criticality::Normal,
            result.multivalue@.len() == k - 1,
            forall|a: int| 1 <= a < k ==> pv_line_ok(#[trigger] ls[a]),
            forall|a: int| 0 <= a < result.multivalue@.len() ==> pv_point_matches(#[trigger] result.multivalue@[a], ls[a + 1]),
        decreases lines@.len() - k,
    {
        assert(ls[k as int] == lines@[k as int]@);
        match parse_pv_line(&lines[k]) {
            Some(point) => {
                result.multivalue.push(point);
            },
            None => {
                assert(!pv_line_ok(ls[k as int]));
                assert(ls == text_lines(response.message@));
                assert(!pv_line_ok(text_lines(response.message@)[k as int]));
                return Err(LkError::other("Invalid physical volume data"));
            },
        }
        k = k + 1;
    }
    assert(ls.len() == lines@.len());
    assert(ls == text_lines(response.message@));
    assert(lines@.len() > 0 ==> k == lines@.len());
    assert(result.multivalue@.len() == (if ls.len() > 0 {
        ls.len() - 1
    } else {
        0
    }));
    assert(forall|a: int|
        1 <= a < text_lines(response.message@).len() ==> pv_line_ok(#[trigger] text_lines(response.message@)[a]));
    Ok(result)
}

/// Monitors the LVM physical volumes of a host.
#[derive(Clone, Debug)]
pub struct PhysicalVolume {}

impl PhysicalVolume {
    pub fn new() -> (r: PhysicalVolume) {
        PhysicalVolume {}
    }
}

impl MonitoringModule for PhysicalVolume {
    fn get_module_spec(&self) -> ModuleSpecification {
        ModuleSpecification::new("storage-lvm-physical-volume", "0.0.1")
    }

    fn get_parent_module(&self) -> Option<ModuleSpecification> {
        None
    }

    fn get_connector_spec(&self) -> Option<ModuleSpecification> {
        Some(ModuleSpecification::new("ssh", "0.0.1"))
    }

    fn get_display_options(&self) -> DisplayOptions {
        DisplayOptions::new(String::from_str("storage"), String::from_str("Physical Volumes"))
    }

    fn get_connector_messages(&self, _host: &Host, _parent_result: &DataPoint) -> Result<Vec<String>, LkError> {
        Err(LkError::other(""))
    }

    fn get_connector_message(&self, host: &Host, _parent_result: &DataPoint) -> Result<String, LkError> {
        let line = String::from_str("pvs --separator '|' --options pv_name,pv_attr,pv_size --units H");
        if host.uses_sudo() {
            let mut with_sudo = String::from_str("sudo ");
            with_sudo.append(line.as_str());
            Ok(with_sudo)
        } else {
            Ok(line)
        }
    }

    fn process_response(
        &self,
        _host: &Host,
        response: &ResponseMessage,
        _parent_result: &DataPoint,
    ) -> Result<DataPoint, LkError> {
        parse_physical_volumes(response)
    }

    fn process_responses(
        &self,
        _host: &Host,
        _responses: &Vec<ResponseMessage>,
        _parent_result: &DataPoint,
    ) -> Result<DataPoint, LkError> {
        Err(LkError::other(""))
    }
}

/// The instant that `text` names in the `strftime`-style `format`, read as UTC, in seconds
/// since the Unix epoch; `None` when `text` does not match the format.
pub uninterp spec fn datetime_seconds(text: Seq<char>, format: Seq<char>) -> Option<i64>;

/// Relies on chrono's `NaiveDateTime::parse_from_str` and `and_utc().timestamp()`: the parsed
/// instant, which depends on the text and the format alone.
#[verifier::external_body]
fn parse_datetime_seconds(text: &str, format: &str) -> (r: Option<i64>)
    ensures
        r == datetime_seconds(text@, format@),
{
    chrono::NaiveDateTime::parse_from_str(text, format).ok().map(|t| t.and_utc().timestamp())
}

/// `s` without its trailing line break characters.
pub open spec fn trim_line_end(s: Seq<char>) -> Seq<char>
    decreases s.len(),
{
    if s.len() > 0 && (s.last() == '\n' || s.last() == '\r') {
        trim_line_end(s.drop_last())
    } else {
        s
    }
}

pub fn strip_newline(text: &str) -> (r: String)
    ensures
        r@ == trim_line_end(text@),
{
    let mut end = text.unicode_len();
    assert(text@.subrange(0, end as int) =~= text@);
    while end > 0 && (text.get_char(end - 1) == '\n' || text.get_char(end - 1) == '\r')
        invariant
            end <= text@.len(),
            trim_line_end(text@) == trim_line_end(text@.subrange(0, end as int)),
        decreases end,
    {
        proof {
            let s = text@.subrange(0, end as int);
            assert(s.drop_last() =~= text@.subrange(0, end as int - 1));
        }
        end = end - 1;
    }
    proof {
        let s = text@.subrange(0, end as int);
        if end > 0 {
            assert(s.last() == text@[end as int - 1]);
        }
    }
    String::from_str(text.substring_char(0, end))
}

/// Whole days from `boot` to `now`, both in seconds; `None` when `boot` is later than `now`.
pub fn uptime_in_days(boot: i64, now: i64) -> (r: Option<u64>)
    ensures
        r is Some <==> boot <= now,
        r matches Some(d) ==> d == (now - boot) / 86400,
{
    if boot > now {
        return None;
    }
    let seconds = (now as i128 - boot as i128) as u64;
    Some(seconds / 86400)
}

/// Monitors how long a host has been up, in days.
#[derive(Clone, Debug)]
pub struct Uptime {}

impl Uptime {
    pub fn new() -> (r: Uptime) {
        Uptime {}
    }

    /// Read the boot time that `uptime -s` printed and count the days since then, as of `now`.
    pub fn uptime_from(&self, response: &ResponseMessage, now: i64) -> (r: Result<u64, LkError>)
        ensures
            r is Ok <==> (datetime_seconds(trim_line_end(response.message@), "%Y-%m-%d %H:%M:%S"@) matches Some(
                boot,
            ) && boot <= now),
            r matches Ok(days) ==> (datetime_seconds(trim_line_end(response.message@), "%Y-%m-%d %H:%M:%S"@)
                matches Some(boot) && days == (now - boot) / 86400),
    {
        let text = strip_newline(response.message.as_str());
        match parse_datetime_seconds(text.as_str(), "%Y-%m-%d %H:%M:%S") {
            Some(boot) => match uptime_in_days(boot, now) {
                Some(days) => Ok(days),
                None => Err(LkError::other("Boot time is in the future")),
            },
            None => Err(LkError::other_p("Invalid boot time", text.as_str())),
        }
    }
}

impl MonitoringModule for Uptime {
    fn get_module_spec(&self) -> ModuleSpecification {
        ModuleSpecification::new("uptime", "0.0.1")
    }

    fn get_parent_module(&self) -> Option<ModuleSpecification> {
        None
    }

    fn get_connector_spec(&self) -> Option<ModuleSpecification> {
        Some(ModuleSpecification::new("ssh", "0.0.1"))
    }

    fn get_display_options(&self) -> DisplayOptions {
        let mut options = DisplayOptions::new(String::from_str("host"), String::from_str("Uptime"));
        options.unit = String::from_str("d");
        options
    }

    fn get_connector_messages(&self, _host: &Host, _parent_result: &DataPoint) -> Result<Vec<String>, LkError> {
        Err(LkError::other(""))
    }

    fn get_connector_message(&self, _host: &Host, _parent_result: &DataPoint) -> Result<String, LkError> {
        Ok(String::from_str("uptime -s"))
    }

    fn process_response(
        &self,
        _host: &Host,
        response: &ResponseMessage,
        _parent_result: &DataPoint,
    ) -> Result<DataPoint, LkError> {
        match self.uptime_from(response, current_timestamp()) {
            Ok(days) => Ok(DataPoint::new(days.to_string())),
            Err(e) => Err(e),
        }
    }

    fn process_responses(
        &self,
        _host: &Host,
        _responses: &Vec<ResponseMessage>,
        _parent_result: &DataPoint,
    ) -> Result<DataPoint, LkError> {
        Err(LkError::other(""))
    }
}

} // verus!
