//! Putting a player on the whitelist of every server, or taking the player
//! off, and what each server said to it.

use vstd::prelude::*;
use vstd::string::StringExecFns;
use crate::batch::{outcomes, CommandResult, Outcome};
use crate::config::{ServerChoice, ServerConfig};
use crate::names::{sort_player_list, sorted_stably};
use crate::text::{has_prefix, same_text, split, split_on, starts_with, views};

verus! {

/// What a server said to a whitelist command.
#[derive(Clone, Copy, Debug, PartialEq, Eq, Structural)]
pub enum WhitelistResult {
    /// The player was added or removed.
    Success,
    /// The player was on the list already, or was not on it.
    Already,
    /// No reply, or none that is understood.
    Fail,
}

/// What a server said to an operator command.
#[derive(Clone, Copy, Debug, PartialEq, Eq, Structural)]
pub enum OpResult {
    /// The player was made an operator, or no longer is one.
    Success,
    /// Nothing changed.
    Already,
    /// No reply, or none that is understood.
    Fail,
}

/// A reply that is none of those a server is known to give.
#[derive(Clone, Debug, PartialEq, Eq)]
pub struct Unrecognized {
    pub response: String,
}

/// What one server said.
#[derive(Clone, Debug, PartialEq, Eq)]
pub struct WhitelistResultElement {
    /// The name under which the server is shown.
    pub server: String,
    pub whitelist: WhitelistResult,
    /// Present where the server makes whitelisted players operators.
    pub op: Option<OpResult>,
}

/// What one server said, as the contracts speak of it.
pub ghost struct Entry {
    pub server: Seq<char>,
    pub whitelist: WhitelistResult,
    pub op: Option<OpResult>,
}

impl View for WhitelistResultElement {
    type V = Entry;

    open spec fn view(&self) -> Entry {
        Entry { server: self.server@, whitelist: self.whitelist, op: self.op }
    }
}

/// The views of a list of entries.
pub open spec fn entries(v: Seq<WhitelistResultElement>) -> Seq<Entry> {
    Seq::new(v.len(), |i: int| v[i]@)
}

/// The views of a list of runs.
pub open spec fn runs_view(v: Seq<Vec<CommandResult>>) -> Seq<Seq<Outcome>> {
    Seq::new(v.len(), |i: int| outcomes(v[i]@))
}

/// What a reply to a whitelist command means: the two sentences that say the
/// player was, or was not, on the list already, word for word; else a reply
/// that begins with `Added` or `Removed`; nothing else.
pub open spec fn whitelist_class(line: Seq<char>) -> Option<WhitelistResult> {
    if line == "Player is already whitelisted"@ || line == "Player is not whitelisted"@ {
        Some(WhitelistResult::Already)
    } else if starts_with(line, "Added"@) || starts_with(line, "Removed"@) {
        Some(WhitelistResult::Success)
    } else {
        None
    }
}

/// What a reply to an operator command means: a reply that begins with
/// `Nothing changed.`, else one that begins with `Made`; nothing else.
pub open spec fn op_class(line: Seq<char>) -> Option<OpResult> {
    if starts_with(line, "Nothing changed."@) {
        Some(OpResult::Already)
    } else if starts_with(line, "Made"@) {
        Some(OpResult::Success)
    } else {
        None
    }
}

/// The commands that put `ign` on the whitelist, and make the player an
/// operator where the server does that.
pub open spec fn add_commands(ign: Seq<char>, operator: bool) -> Seq<Seq<char>> {
    if operator {
        seq!["whitelist add "@ + ign, "op "@ + ign]
    } else {
        seq!["whitelist add "@ + ign]
    }
}

/// The commands that take `ign` off the whitelist, and the player's
/// operator status where the server gives one.
pub open spec fn remove_commands(ign: Seq<char>, operator: bool) -> Seq<Seq<char>> {
    if operator {
        seq!["whitelist remove "@ + ign, "deop "@ + ign]
    } else {
        seq!["whitelist remove "@ + ign]
    }
}

/// What the outcome at `at` says of a whitelist command: what its output
/// means, and a failure where there is no outcome, no output, or output that
/// is not understood.
pub open spec fn whitelist_at(run: Seq<Outcome>, at: int) -> WhitelistResult {
    if 0 <= at < run.len() && run[at] is Text && whitelist_class(run[at]->Text_0) is Some {
        whitelist_class(run[at]->Text_0)->Some_0
    } else {
        WhitelistResult::Fail
    }
}

/// What the outcome at `at` says of an operator command, likewise.
pub open spec fn op_at(run: Seq<Outcome>, at: int) -> OpResult {
    if 0 <= at < run.len() && run[at] is Text && op_class(run[at]->Text_0) is Some {
        op_class(run[at]->Text_0)->Some_0
    } else {
        OpResult::Fail
    }
}

/// The name under which a server is shown: that of its choice, or its own
/// name where it is none of the five.
pub open spec fn shown_name(name: Seq<char>) -> Seq<char> {
    match ServerChoice::named(name) {
        Some(choice) => choice.label(),
        None => name,
    }
}

/// What one server said: the first outcome of its run is that of the
/// whitelist command, the second that of the operator command, which only a
/// server with operators is sent. A run that is empty, because the server
/// could not be reached, is a failure of both.
pub open spec fn entry_of(name: Seq<char>, operator: bool, run: Seq<Outcome>) -> Entry {
    Entry {
        server: shown_name(name),
        whitelist: whitelist_at(run, 0),
        op: if operator {
            Some(op_at(run, 1))
        } else {
            None
        },
    }
}

/// The run of the server at `at`; a server without a run was not reached.
pub open spec fn run_at(runs: Seq<Seq<Outcome>>, at: int) -> Seq<Outcome> {
    if 0 <= at < runs.len() {
        runs[at]
    } else {
        Seq::empty()
    }
}

/// The report on all servers: one entry for each, in their order, whatever
/// became of its run.
pub open spec fn report_of(servers: Seq<ServerConfig>, runs: Seq<Seq<Outcome>>) -> Seq<Entry> {
    Seq::new(
        servers.len(),
        |i: int| entry_of(servers[i].server_name@, servers[i].operator, run_at(runs, i)),
    )
}

impl WhitelistResult {
    /// Reads the reply to a whitelist command.
    pub fn from_str(s: &str) -> (r: Result<WhitelistResult, Unrecognized>)
        ensures
            match whitelist_class(s@) {
                Some(class) => r == Ok::<WhitelistResult, Unrecognized>(class),
                None => r is Err && r->Err_0.response@ == s@,
            },
    {
        if same_text(s, "Player is already whitelisted") || same_text(
            s,
            "Player is not whitelisted",
        ) {
            Ok(WhitelistResult::Already)
        } else if has_prefix(s, "Added") || has_prefix(s, "Removed") {
            Ok(WhitelistResult::Success)
        } else {
            Err(Unrecognized { response: String::from_str(s) })
        }
    }

    /// The word that shows the result.
    pub open spec fn word(self) -> Seq<char> {
        match self {
            WhitelistResult::Success => "Success"@,
            WhitelistResult::Already => "Already"@,
            WhitelistResult::Fail => "Failed"@,
        }
    }
}

impl OpResult {
    /// Reads the reply to an operator command.
    pub fn from_str(s: &str) -> (r: Result<OpResult, Unrecognized>)
        ensures
            match op_class(s@) {
                Some(class) => r == Ok::<OpResult, Unrecognized>(class),
                None => r is Err && r->Err_0.response@ == s@,
            },
    {
        if has_prefix(s, "Nothing changed.") {
            Ok(OpResult::Already)
        } else if has_prefix(s, "Made") {
            Ok(OpResult::Success)
        } else {
            Err(Unrecognized { response: String::from_str(s) })
        }
    }

    /// The word that shows the result.
    pub open spec fn word(self) -> Seq<char> {
        match self {
            OpResult::Success => "Success"@,
            OpResult::Already => "Already"@,
            OpResult::Fail => "Failed"@,
        }
    }
}

/// The commands that put `ign` on the whitelist.
pub fn get_whitelist_add_commands(ign: &str, operator: bool) -> (commands: Vec<String>)
    ensures
        views(commands@) == add_commands(ign@, operator),
{
    let mut commands: Vec<String> = Vec::new();
    commands.push(String::from_str("whitelist add ").concat(ign));
    if operator {
        commands.push(String::from_str("op ").concat(ign));
    }
    assert(views(commands@) =~= add_commands(ign@, operator));
    commands
}

/// The commands that take `ign` off the whitelist.
pub fn get_whitelist_remove_commands(ign: &str, operator: bool) -> (commands: Vec<String>)
    ensures
        views(commands@) == remove_commands(ign@, operator),
{
    let mut commands: Vec<String> = Vec::new();
    commands.push(String::from_str("whitelist remove ").concat(ign));
    if operator {
        commands.push(String::from_str("deop ").concat(ign));
    }
    assert(views(commands@) =~= remove_commands(ign@, operator));
    commands
}

/// The commands for one server: those that add where `add` is set, else
/// those that remove.
pub fn whitelist_commands(ign: &str, config: &ServerConfig, add: bool) -> (commands: Vec<String>)
    ensures
        views(commands@) == if add {
            add_commands(ign@, config.operator)
        } else {
            remove_commands(ign@, config.operator)
        },
{
    if add {
        get_whitelist_add_commands(ign, config.operator)
    } else {
        get_whitelist_remove_commands(ign, config.operator)
    }
}

/// What the outcome at `at` says of a whitelist command.
fn whitelist_result_at(run: &Vec<CommandResult>, at: usize) -> (result: WhitelistResult)
    ensures
        result == whitelist_at(outcomes(run@), at as int),
{
    if at >= run.len() {
        return WhitelistResult::Fail;
    }
    match &run[at] {
        CommandResult::Text(s) => match WhitelistResult::from_str(s.as_str()) {
            Ok(class) => class,
            Err(_) => WhitelistResult::Fail,
        },
        _ => WhitelistResult::Fail,
    }
}

/// What the outcome at `at` says of an operator command.
fn op_result_at(run: &Vec<CommandResult>, at: usize) -> (result: OpResult)
    ensures
        result == op_at(outcomes(run@), at as int),
{
    if at >= run.len() {
        return OpResult::Fail;
    }
    match &run[at] {
        CommandResult::Text(s) => match OpResult::from_str(s.as_str()) {
            Ok(class) => class,
            Err(_) => OpResult::Fail,
        },
        _ => OpResult::Fail,
    }
}

/// The name under which the server of `config` is shown.
pub fn server_label(config: &ServerConfig) -> (label: String)
    ensures
        label@ == shown_name(config.server_name@),
{
    match ServerChoice::try_from(config) {
        Ok(choice) => choice.to_string(),
        Err(_) => config.server_name.clone(),
    }
}

/// What one server said, from the outcomes of its commands.
pub fn whitelist_entry(config: &ServerConfig, run: &Vec<CommandResult>) -> (entry:
    WhitelistResultElement)
    ensures
        entry@ == entry_of(config.server_name@, config.operator, outcomes(run@)),
{
    let whitelist = whitelist_result_at(run, 0);
    let op = if config.operator {
        Some(op_result_at(run, 1))
    } else {
        None
    };
    WhitelistResultElement { server: server_label(config), whitelist, op }
}

/// The report on all servers. `runs` holds the outcomes of each server's
/// commands, in the order of `servers`; a server that could not be reached
/// has an empty run, or none.
///
/// The report has an entry for every server, and no server's trouble keeps
/// another's entry out.
pub fn whitelist_report(servers: &Vec<ServerConfig>, runs: &Vec<Vec<CommandResult>>) -> (report:
    Vec<WhitelistResultElement>)
    ensures
        entries(report@) == report_of(servers@, runs_view(runs@)),
        report@.len() == servers@.len(),
{
    let mut report: Vec<WhitelistResultElement> = Vec::new();
    let none: Vec<CommandResult> = Vec::new();
    assert(outcomes(none@) =~= Seq::<Outcome>::empty());
    let mut i: usize = 0;
    while i < servers.len()
        invariant
            i <= servers.len(),
            report@.len() == i,
            outcomes(none@) == Seq::<Outcome>::empty(),
            forall|j: int|
                0 <= j < i ==> (#[trigger] report@[j])@ == entry_of(
                    servers@[j].server_name@,
                    servers@[j].operator,
                    run_at(runs_view(runs@), j),
                ),
        decreases servers.len() - i,
    {
        let run = if i < runs.len() {
            &runs[i]
        } else {
            &none
        };
        report.push(whitelist_entry(&servers[i], run));
        i = i + 1;
    }
    assert(entries(report@) =~= report_of(servers@, runs_view(runs@)));
    report
}

/// One server's trouble is its own. The report has an entry for every
/// server; the entry of a server that was not reached says that both
/// commands failed; and every entry is made of its server and that server's
/// run alone, so that it is the same whatever became of the other servers.
pub proof fn lemma_report_complete(
    servers: Seq<ServerConfig>,
    runs: Seq<Seq<Outcome>>,
    others: Seq<Seq<Outcome>>,
    at: int,
)
    requires
        0 <= at < servers.len(),
    ensures
        report_of(servers, runs).len() == servers.len(),
        report_of(servers, runs)[at].server == shown_name(servers[at].server_name@),
        run_at(runs, at).len() == 0 ==> report_of(servers, runs)[at].whitelist
            == WhitelistResult::Fail && report_of(servers, runs)[at].op == if servers[at].operator {
            Some(OpResult::Fail)
        } else {
            None
        },
        run_at(runs, at) == run_at(others, at) ==> report_of(servers, runs)[at] == report_of(
            servers,
            others,
        )[at],
{
}

/// The heading of a report on `ign`.
pub open spec fn title_of(ign: Seq<char>) -> Seq<char> {
    "Whitelist Results for "@ + ign
}

/// What a report shows of one server: the result of the whitelist command,
/// and on a line of its own that of the operator command where there is one.
pub open spec fn field_value(entry: Entry) -> Seq<char> {
    "**Whitelist**: "@ + entry.whitelist.word() + match entry.op {
        Some(op) => "\n**Operator**: "@ + op.word(),
        None => Seq::empty(),
    }
}

/// The heading of a report on `ign`.
pub fn report_title(ign: &str) -> (title: String)
    ensures
        title@ == title_of(ign@),
{
    String::from_str("Whitelist Results for ").concat(ign)
}

/// What a report shows of one server, under the server's name.
pub fn report_field(element: &WhitelistResultElement) -> (field: (String, String))
    ensures
        field.0@ == element@.server,
        field.1@ == field_value(element@),
{
    let mut value = String::from_str("**Whitelist**: ");
    match element.whitelist {
        WhitelistResult::Success => value.append("Success"),
        WhitelistResult::Already => value.append("Already"),
        WhitelistResult::Fail => value.append("Failed"),
    }
    match element.op {
        Some(op) => {
            value.append("\n**Operator**: ");
            match op {
                OpResult::Success => value.append("Success"),
                OpResult::Already => value.append("Already"),
                OpResult::Fail => value.append("Failed"),
            }
        },
        None => {
            assert(value@ + Seq::<char>::empty() =~= value@);
        },
    }
    proof {
        assert(value@ =~= field_value(element@));
    }
    (element.server.clone(), value)
}

/// Why the reply to the command that lists a whitelist gives no names.
#[derive(Clone, Debug, PartialEq, Eq)]
pub enum ListError {
    /// No command of the run was answered with output.
    NoResponse,
    /// The reply holds no `": "`. Holds the reply.
    Unexpected(String),
}

/// The first output among the outcomes of a run, if any has output.
pub open spec fn first_text(run: Seq<Outcome>) -> Option<Seq<char>>
    decreases run.len(),
{
    if run.len() == 0 {
        None
    } else if run[0] is Text {
        Some(run[0]->Text_0)
    } else {
        first_text(run.drop_first())
    }
}

/// The names on a whitelist as the server lists them: what follows the
/// first `": "` of the reply, up to the next if there is one, cut at every
/// `", "`. A reply without `": "` lists nothing.
pub open spec fn listed_names(reply: Seq<char>) -> Option<Seq<Seq<char>>> {
    let halves = split_on(reply, crate::metrics::colon_space());
    if halves.len() < 2 {
        None
    } else {
        Some(split_on(halves[1], crate::metrics::comma_space()))
    }
}

/// Reads the names on a whitelist from the reply that lists them, and puts
/// them into the order in which names are shown.
pub fn parse_whitelist(response: &str) -> (names: Option<Vec<String>>)
    ensures
        match listed_names(response@) {
            Some(listed) => names is Some && sorted_stably(listed, views(names->Some_0@)),
            None => names is None,
        },
{
    proof {
        reveal_strlit(": ");
        reveal_strlit(", ");
        assert(": "@ =~= crate::metrics::colon_space());
        assert(", "@ =~= crate::metrics::comma_space());
    }
    let halves = split(response, ": ");
    if halves.len() < 2 {
        return None;
    }
    let mut names = split(halves[1].as_str(), ", ");
    sort_player_list(&mut names);
    Some(names)
}

/// Reads the names on a whitelist from the run of the command that lists
/// them: from the first output in the run.
///
/// Fails with `NoResponse` where the run has no output, and with
/// `Unexpected` where that output lists nothing.
pub fn whitelist_names(run: &Vec<CommandResult>) -> (r: Result<Vec<String>, ListError>)
    ensures
        match first_text(outcomes(run@)) {
            None => r == Err::<Vec<String>, ListError>(ListError::NoResponse),
            Some(reply) => match listed_names(reply) {
                None => r matches Err(ListError::Unexpected(raw)) && raw@ == reply,
                Some(listed) => r matches Ok(names) && sorted_stably(listed, views(names@)),
            },
        },
{
    let mut i: usize = 0;
    proof {
        assert(outcomes(run@).skip(0) =~= outcomes(run@));
    }
    while i < run.len()
        invariant
            i <= run.len(),
            first_text(outcomes(run@)) == first_text(outcomes(run@).skip(i as int)),
        decreases run.len() - i,
    {
        proof {
            let rest = outcomes(run@).skip(i as int);
            assert(rest[0] == run@[i as int]@);
            assert(rest.drop_first() =~= outcomes(run@).skip(i + 1));
        }
        match &run[i] {
            CommandResult::Text(reply) => {
                return match parse_whitelist(reply.as_str()) {
                    Some(names) => Ok(names),
                    None => Err(ListError::Unexpected(reply.clone())),
                };
            },
            _ => {},
        }
        i = i + 1;
    }
    Err(ListError::NoResponse)
}

} // verus!
