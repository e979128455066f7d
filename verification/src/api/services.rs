//! The boundary for the host's services.

use crate::error::{AppError, AppErrorView, ErrorCategory};
use crate::text::{
    char_is_alphanumeric, chars_of, is_alphanumeric, join_from, joined, lines_of, split_lines,
    split_words, strip_suffix, without_suffix, words_of,
};
use vstd::prelude::*;
use vstd::utf8::encode_utf8;

verus! {

/// A service of the host, as its service manager lists it.
#[derive(Debug, PartialEq, Eq)]
pub struct ServiceInfo {
    pub name: String,
    pub description: String,
    pub load_state: String,
    pub active_state: String,
    pub sub_state: String,
}

/// The mathematical model of a [`ServiceInfo`].
pub struct ServiceInfoView {
    pub name: Seq<char>,
    pub description: Seq<char>,
    pub load_state: Seq<char>,
    pub active_state: Seq<char>,
    pub sub_state: Seq<char>,
}

impl DeepView for ServiceInfo {
    type V = ServiceInfoView;

    open spec fn deep_view(&self) -> ServiceInfoView {
        ServiceInfoView {
            name: self.name@,
            description: self.description@,
            load_state: self.load_state@,
            active_state: self.active_state@,
            sub_state: self.sub_state@,
        }
    }
}

/// The last lines that a service logged.
#[derive(Debug, PartialEq, Eq)]
pub struct ServiceLogs {
    pub name: String,
    pub logs: Vec<String>,
}

/// What an action on a service came to.
#[derive(Debug, PartialEq, Eq)]
pub struct ServiceActionResponse {
    pub success: bool,
    pub message: String,
}

/// The mathematical model of a [`ServiceActionResponse`].
pub struct ServiceActionResponseView {
    pub success: bool,
    pub message: Seq<char>,
}

impl DeepView for ServiceActionResponse {
    type V = ServiceActionResponseView;

    open spec fn deep_view(&self) -> ServiceActionResponseView {
        ServiceActionResponseView { success: self.success, message: self.message@ }
    }
}

/// How many lines of a service's log are asked for.
#[derive(Debug, PartialEq, Eq)]
pub struct LogsQuery {
    pub lines: Option<usize>,
}

/// The longest service name that is accepted, in bytes.
pub const MAX_SERVICE_NAME_BYTES: usize = 256;

/// The number of log lines returned where the query names none.
pub const DEFAULT_LOG_LINES: usize = 100;

/// The largest number of log lines returned.
pub const MAX_LOG_LINES: usize = 1000;

/// Whether a character may stand in a service name: a letter, a number, or
/// one of `-`, `_`, `.` and `@`.
pub open spec fn is_name_char(c: char) -> bool {
    is_alphanumeric(c) || c == '-' || c == '_' || c == '.' || c == '@'
}

/// What is wrong with a service name, if anything: it is empty or longer
/// than 256 bytes, or it holds a character that may not stand in a name. The
/// length is judged first.
pub open spec fn service_name_fault(name: Seq<char>) -> Option<Seq<char>> {
    if name.len() == 0 || encode_utf8(name).len() > MAX_SERVICE_NAME_BYTES {
        Some("Invalid service name length"@)
    } else if exists|i: int| 0 <= i < name.len() && !is_name_char(#[trigger] name[i]) {
        Some("Invalid service name characters"@)
    } else {
        None
    }
}

/// The number of log lines that a query comes to.
pub open spec fn log_lines(lines: Option<usize>) -> usize {
    match lines {
        Some(n) => if n < MAX_LOG_LINES {
            n
        } else {
            MAX_LOG_LINES
        },
        None => DEFAULT_LOG_LINES,
    }
}

/// What is reported when the service manager carried out `action` on the
/// service `name`.
pub open spec fn action_report(name: Seq<char>, action: Seq<char>) -> ServiceActionResponseView {
    ServiceActionResponseView {
        success: true,
        message: "Service "@ + name + " "@ + action + "ed successfully"@,
    }
}

/// The service that a line of the service manager's listing describes: the
/// unit's name without the ending `.service`, its three states, and the rest
/// of the line as its description. A line of fewer than five words describes
/// none.
pub open spec fn service_of(line: Seq<char>) -> Option<ServiceInfoView> {
    let words = words_of(line);
    if words.len() >= 5 {
        Some(
            ServiceInfoView {
                name: without_suffix(words[0], ".service"@),
                load_state: words[1],
                active_state: words[2],
                sub_state: words[3],
                description: joined(words.skip(4), " "@),
            },
        )
    } else {
        None
    }
}

/// The services that `lines` describe, in order.
pub open spec fn services_in(lines: Seq<Seq<char>>) -> Seq<ServiceInfoView>
    decreases lines.len(),
{
    if lines.len() == 0 {
        Seq::empty()
    } else {
        let before = services_in(lines.drop_last());
        match service_of(lines.last()) {
            Some(service) => before.push(service),
            None => before,
        }
    }
}

/// The services that the service manager's listing describes. Its first
/// line is the heading.
pub open spec fn listed_services(output: Seq<char>) -> Seq<ServiceInfoView> {
    let lines = lines_of(output);
    if lines.len() == 0 {
        Seq::empty()
    } else {
        services_in(lines.skip(1))
    }
}

/// The failure reported when the service manager could not carry out
/// `action`, with what it wrote as the reason.
pub open spec fn action_fault(action: Seq<char>, reason: Seq<char>) -> AppErrorView {
    AppErrorView {
        category: ErrorCategory::System,
        message: "Failed to "@ + action + " service: "@ + reason,
    }
}

/// Reads the service manager's listing of its units.
pub fn parse_service_list(output: &str) -> (out: Vec<ServiceInfo>)
    ensures
        out.deep_view() == listed_services(output@),
{
    let lines = split_lines(output);
    let mut out: Vec<ServiceInfo> = Vec::new();
    assert(out.deep_view() =~= Seq::empty());
    if lines.len() == 0 {
        return out;
    }
    let ghost all = lines.deep_view().skip(1);
    let mut i: usize = 1;
    assert(all.take(0) =~= Seq::<Seq<char>>::empty());
    while i < lines.len()
        invariant
            1 <= i <= lines.len(),
            all == lines.deep_view().skip(1),
            out.deep_view() == services_in(all.take(i - 1)),
        decreases lines.len() - i,
    {
        proof {
            assert(all.take(i as int).drop_last() =~= all.take(i - 1));
            assert(all.take(i as int).last() == lines@[i as int]@);
        }
        let ghost before = out.deep_view();
        let words = split_words(lines[i].as_str());
        if words.len() >= 5 {
            let service = ServiceInfo {
                name: strip_suffix(words[0].as_str(), ".service").to_owned(),
                load_state: words[1].clone(),
                active_state: words[2].clone(),
                sub_state: words[3].clone(),
                description: join_from(&words, 4, " "),
            };
            proof {
                assert(words.deep_view()[0] == words@[0]@);
                assert(words.deep_view()[1] == words@[1]@);
                assert(words.deep_view()[2] == words@[2]@);
                assert(words.deep_view()[3] == words@[3]@);
                assert(service_of(lines@[i as int]@) == Some(service.deep_view()));
            }
            out.push(service);
            assert(out.deep_view() =~= before.push(service_of(lines@[i as int]@)->0));
        }
        i += 1;
    }
    assert(all.take(i - 1) =~= all);
    out
}

/// The failure to report when the service manager could not carry out
/// `action` and wrote `reason`.
pub fn action_failure(action: &str, reason: &str) -> (out: AppError)
    ensures
        out.deep_view() == action_fault(action@, reason@),
{
    let mut message = "Failed to ".to_string();
    message.append(action);
    message.append(" service: ");
    message.append(reason);
    AppError::System(message)
}

impl ServiceLogs {
    /// The log of the service `name`, line by line, from what the journal
    /// wrote.
    pub fn from_output(name: String, output: &str) -> (out: ServiceLogs)
        ensures
            out.name@ == name@,
            out.logs.deep_view() == lines_of(output@),
    {
        ServiceLogs { name, logs: split_lines(output) }
    }
}

/// Accepts a service name, or says what is wrong with it.
pub fn validate_service_name(name: &str) -> (out: Result<(), AppError>)
    ensures
        match out {
            Ok(_) => service_name_fault(name@) is None,
            Err(error) => service_name_fault(name@) == Some(error.deep_view().message)
                && error.deep_view().category == ErrorCategory::Validation,
        },
{
    if name.is_empty() || name.as_bytes().len() > MAX_SERVICE_NAME_BYTES {
        return Err(AppError::Validation("Invalid service name length".to_string()));
    }
    let chars = chars_of(name);
    let mut i: usize = 0;
    while i < chars.len()
        invariant
            i <= chars.len(),
            chars@ == name@,
            name@.len() != 0,
            encode_utf8(name@).len() <= MAX_SERVICE_NAME_BYTES,
            forall|j: int| 0 <= j < i ==> is_name_char(#[trigger] chars@[j]),
        decreases chars.len() - i,
    {
        let c: char = chars[i];
        if !(char_is_alphanumeric(c) || c == '-' || c == '_' || c == '.' || c == '@') {
            return Err(AppError::Validation("Invalid service name characters".to_string()));
        }
        i += 1;
    }
    Ok(())
}

impl LogsQuery {
    /// The number of log lines to return: the one asked for, at most 1000;
    /// 100 where none is asked for.
    pub fn line_count(&self) -> (out: usize)
        ensures
            out == log_lines(self.lines),
    {
        match self.lines {
            Some(n) => if n < MAX_LOG_LINES {
                n
            } else {
                MAX_LOG_LINES
            },
            None => DEFAULT_LOG_LINES,
        }
    }
}

impl ServiceActionResponse {
    /// The report of an action that the service manager carried out.
    pub fn succeeded(name: &str, action: &str) -> (out: ServiceActionResponse)
        ensures
            out.deep_view() == action_report(name@, action@),
    {
        let mut message = "Service ".to_string();
        message.append(name);
        message.append(" ");
        message.append(action);
        message.append("ed successfully");
        ServiceActionResponse { success: true, message }
    }
}

} // verus!
