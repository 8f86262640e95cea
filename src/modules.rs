use vstd::prelude::*;

use crate::data::{CommandResult, DataPoint, DisplayOptions, Host, ModuleSpecification, ResponseMessage};
use crate::error::LkError;

verus! {

/// A monitoring module: builds the messages that a refresh sends and turns the responses
/// into a data point. An extension module names its parent and receives the parent's point.
pub trait MonitoringModule {
    fn get_module_spec(&self) -> ModuleSpecification;

    fn get_parent_module(&self) -> Option<ModuleSpecification>;

    fn get_connector_spec(&self) -> Option<ModuleSpecification>;

    fn get_display_options(&self) -> DisplayOptions;

    /// The multi-message form; an error with an empty message means "not implemented".
    fn get_connector_messages(&self, host: &Host, parent_result: &DataPoint) -> Result<Vec<String>, LkError>;

    /// The single-message form; an error with an empty message means "not implemented".
    fn get_connector_message(&self, host: &Host, parent_result: &DataPoint) -> Result<String, LkError>;

    fn process_response(
        &self,
        host: &Host,
        response: &ResponseMessage,
        parent_result: &DataPoint,
    ) -> Result<DataPoint, LkError>;

    /// The multi-response form; an error with an empty message means "not implemented".
    fn process_responses(
        &self,
        host: &Host,
        responses: &Vec<ResponseMessage>,
        parent_result: &DataPoint,
    ) -> Result<DataPoint, LkError>;
}

/// A command module: builds the messages that run a remote action and reads its result.
pub trait CommandModule {
    fn get_module_spec(&self) -> ModuleSpecification;

    fn get_connector_spec(&self) -> Option<ModuleSpecification>;

    fn get_display_options(&self) -> DisplayOptions;

    /// The multi-message form; an error with an empty message means "not implemented".
    fn get_connector_messages(&self, host: &Host, parameters: &Vec<String>) -> Result<Vec<String>, LkError>;

    /// The single-message form; an error with an empty message means "not implemented".
    fn get_connector_message(&self, host: &Host, parameters: &Vec<String>) -> Result<String, LkError>;

    fn process_response(&self, host: &Host, response: &ResponseMessage) -> Result<CommandResult, LkError>;

    /// The multi-response form; an error with an empty message means "not implemented".
    fn process_responses(&self, host: &Host, responses: &Vec<ResponseMessage>) -> Result<CommandResult, LkError>;
}

pub open spec fn strings_view(v: Seq<String>) -> Seq<Seq<char>> {
    v.map_values(|s: String| s@)
}

/// The messages of `s` that are not empty, in order.
pub open spec fn keep_non_empty(s: Seq<Seq<char>>) -> Seq<Seq<char>>
    decreases s.len(),
{
    if s.len() == 0 {
        s
    } else if s.last().len() > 0 {
        keep_non_empty(s.drop_last()).push(s.last())
    } else {
        keep_non_empty(s.drop_last())
    }
}

/// An error that is not the "not implemented" signal.
pub open spec fn is_real_error<T>(r: Result<T, LkError>) -> bool {
    r matches Err(e) && e.message@.len() > 0
}

/// The messages that both forms give together: the multi form's messages, then the single
/// form's message, a form that signals "not implemented" giving none; empty messages are dropped.
pub open spec fn combined_messages(
    multi: Result<Vec<String>, LkError>,
    single: Result<String, LkError>,
) -> Seq<Seq<char>> {
    let first = match multi {
        Ok(v) => strings_view(v@),
        Err(_) => Seq::empty(),
    };
    let second = match single {
        Ok(m) => seq![m@],
        Err(_) => Seq::empty(),
    };
    keep_non_empty(first + second)
}

/// Join what a module's two message forms returned. A real error of either form (the multi
/// form first) is returned as it is.
pub fn combine_connector_messages(
    multi: Result<Vec<String>, LkError>,
    single: Result<String, LkError>,
) -> (r: Result<Vec<String>, LkError>)
    ensures
        is_real_error(multi) ==> r == multi,
        !is_real_error(multi) && is_real_error(single) ==> (r matches Err(e) && single == Err::<
            String,
            LkError,
        >(e)),
        !is_real_error(multi) && !is_real_error(single) ==> (r matches Ok(v) && strings_view(v@)
            == combined_messages(multi, single)),
{
    let ghost multi_g = multi;
    let ghost single_g = single;
    let mut all: Vec<String> = Vec::new();
    match multi {
        Ok(v) => {
            all = v;
        },
        Err(e) => {
            if !e.message.as_str().is_empty() {
                return Err(e);
            }
        },
    }
    match single {
        Ok(m) => {
            all.push(m);
        },
        Err(e) => {
            if !e.message.as_str().is_empty() {
                return Err(e);
            }
        },
    }
    let ghost src = strings_view(all@);
    proof {
        let first = match multi_g {
            Ok(v) => strings_view(v@),
            Err(_) => Seq::<Seq<char>>::empty(),
        };
        let second = match single_g {
            Ok(m) => seq![m@],
            Err(_) => Seq::<Seq<char>>::empty(),
        };
        assert(src =~= first + second);
    }
    let mut kept: Vec<String> = Vec::new();
    let mut i: usize = 0;
    while i < all.len()
        invariant
            i <= all@.len(),
            src == strings_view(all@),
            strings_view(kept@) == keep_non_empty(src.subrange(0, i as int)),
        decreases all@.len() - i,
    {
        proof {
            let prefix = src.subrange(0, i as int + 1);
            assert(prefix.drop_last() =~= src.subrange(0, i as int));
            assert(prefix.last() == all@[i as int]@);
        }
        if !all[i].as_str().is_empty() {
            kept.push(all[i].clone());
            assert(strings_view(kept@) =~= keep_non_empty(src.subrange(0, i as int)).push(all@[i as int]@));
        }
        i = i + 1;
    }
    assert(src.subrange(0, all@.len() as int) =~= src);
    Ok(kept)
}

pub open spec fn ok_responses(rs: Seq<Result<ResponseMessage, String>>) -> Seq<ResponseMessage>
    decreases rs.len(),
{
    if rs.len() == 0 {
        Seq::empty()
    } else {
        match rs[0] {
            Ok(m) => seq![m] + ok_responses(rs.drop_first()),
            Err(_) => ok_responses(rs.drop_first()),
        }
    }
}

pub open spec fn error_responses(rs: Seq<Result<ResponseMessage, String>>) -> Seq<String>
    decreases rs.len(),
{
    if rs.len() == 0 {
        Seq::empty()
    } else {
        match rs[0] {
            Ok(_) => error_responses(rs.drop_first()),
            Err(e) => seq![e] + error_responses(rs.drop_first()),
        }
    }
}

/// Split a connector's results into the responses and the errors, each in order.
pub fn partition_results(results: Vec<Result<ResponseMessage, String>>) -> (r: (
    Vec<ResponseMessage>,
    Vec<String>,
))
    ensures
        r.0@ == ok_responses(results@),
        r.1@ == error_responses(results@),
{
    let mut responses: Vec<ResponseMessage> = Vec::new();
    let mut errors: Vec<String> = Vec::new();
    let mut rest = results;
    while rest.len() > 0
        invariant
            ok_responses(results@) == responses@ + ok_responses(rest@),
            error_responses(results@) == errors@ + error_responses(rest@),
        decreases rest@.len(),
    {
        let ghost before = rest@;
        let item = rest.remove(0);
        assert(rest@ =~= before.drop_first());
        match item {
            Ok(m) => {
                let ghost old_responses = responses@;
                responses.push(m);
                assert(old_responses + (seq![m] + ok_responses(rest@)) =~= responses@ + ok_responses(
                    rest@,
                ));
            },
            Err(e) => {
                let ghost old_errors = errors@;
                errors.push(e);
                assert(old_errors + (seq![e] + error_responses(rest@)) =~= errors@ + error_responses(
                    rest@,
                ));
            },
        }
    }
    assert(responses@ + ok_responses(rest@) =~= responses@);
    assert(errors@ + error_responses(rest@) =~= errors@);
    (responses, errors)
}

/// Which form of a monitoring module processes the responses of a stage.
#[derive(Clone, Copy, Debug, PartialEq, Eq, Structural)]
pub enum ProcessForm {
    /// Several responses: the multi-response form gets them all.
    Multiple,
    /// One response: the single-response form gets it.
    Single,
    /// No responses (a module without a connector): the single form gets an empty response.
    NoResponse,
}

pub open spec fn process_form_for(n: nat) -> ProcessForm {
    if n > 1 {
        ProcessForm::Multiple
    } else if n == 1 {
        ProcessForm::Single
    } else {
        ProcessForm::NoResponse
    }
}

pub fn process_form(n: usize) -> (r: ProcessForm)
    ensures
        r == process_form_for(n as nat),
{
    if n > 1 {
        ProcessForm::Multiple
    } else if n == 1 {
        ProcessForm::Single
    } else {
        ProcessForm::NoResponse
    }
}

/// The multi-response form signalled "not implemented": an error with an empty message.
pub open spec fn signals_not_implemented<T>(r: Result<T, LkError>) -> bool {
    r matches Err(e) && e.message@.len() == 0
}

/// Whether to fall back to the single-response form with the first response.
pub fn falls_back<T>(multi: &Result<T, LkError>) -> (r: bool)
    ensures
        r == signals_not_implemented(*multi),
{
    match multi {
        Err(e) => e.message.as_str().is_empty(),
        Ok(_) => false,
    }
}

} // verus!
