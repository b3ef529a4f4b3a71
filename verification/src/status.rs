//! What is shown of a server: its state at the hosting panel, and the lines
//! that its metrics make.

use vstd::prelude::*;
use vstd::string::StringExecFns;
use crate::metrics::{Caps, Mobcap, PlayerMetrics, Players, ServerPerformance};
use crate::numerals::{decimal_of, decimal_text};
use crate::text::{join, join_text};

verus! {

/// The state of a server at the hosting panel.
#[derive(Clone, Copy, Debug, PartialEq, Eq, Structural)]
pub enum ServerState {
    Offline,
    Running,
    Starting,
    Stopping,
}

impl ServerState {
    /// The word for the state.
    pub open spec fn word(self) -> Seq<char> {
        match self {
            ServerState::Offline => "offline"@,
            ServerState::Running => "running"@,
            ServerState::Starting => "starting"@,
            ServerState::Stopping => "stopping"@,
        }
    }

    /// The word for the state.
    pub fn to_string(&self) -> (s: String)
        ensures
            s@ == self.word(),
    {
        match self {
            ServerState::Offline => String::from_str("offline"),
            ServerState::Running => String::from_str("running"),
            ServerState::Starting => String::from_str("starting"),
            ServerState::Stopping => String::from_str("stopping"),
        }
    }
}

/// What is said of a server that does not run, under the name `server`.
pub open spec fn idle_notice(server: Seq<char>, state: ServerState) -> Seq<char> {
    server + " is currently "@ + state.word() + "!"@
}

/// The line that shows tick time and tick rate.
pub open spec fn performance_text(p: ServerPerformance) -> Seq<char> {
    "**"@ + decimal_of(p.mspt as int) + "** MSPT | **"@ + decimal_of(p.tps as int) + "** TPS"@
}

/// The three lines that show the mob counts.
pub open spec fn mobcap_text(m: Caps) -> Seq<char> {
    "Overworld: "@ + m.overworld + "\nThe Nether: "@ + m.the_nether + "\nThe End: "@ + m.the_end
}

/// The line that shows how many players are online, and how many may be.
pub open spec fn player_count_text(p: Players) -> Seq<char> {
    "online: **"@ + decimal_of(p.count as int) + "** | max: **"@ + decimal_of(p.max as int)
        + "**"@
}

/// The lines that show who is online: one name on each, or a sentence where
/// the count says that nobody is.
pub open spec fn player_list_text(p: Players) -> Seq<char> {
    if p.count == 0 {
        "There is currently nobody online."@
    } else {
        join(p.names, seq!['\n'])
    }
}

/// What to say of a server in the state `state`, in place of its metrics:
/// nothing of one that runs.
pub fn state_notice(server: &str, state: ServerState) -> (notice: Option<String>)
    ensures
        match notice {
            Some(text) => state != ServerState::Running && text@ == idle_notice(server@, state),
            None => state == ServerState::Running,
        },
{
    if state == ServerState::Running {
        return None;
    }
    let mut text = String::from_str(server);
    text.append(" is currently ");
    text.append(state.to_string().as_str());
    text.append("!");
    Some(text)
}

/// The line that shows tick time and tick rate.
pub fn performance_line(p: &ServerPerformance) -> (line: String)
    ensures
        line@ == performance_text(*p),
{
    let mut line = String::from_str("**");
    line.append(decimal_text(p.mspt as i64).as_str());
    line.append("** MSPT | **");
    line.append(decimal_text(p.tps as i64).as_str());
    line.append("** TPS");
    line
}

/// The three lines that show the mob counts.
pub fn mobcap_lines(m: &Mobcap) -> (lines: String)
    ensures
        lines@ == mobcap_text(m@),
{
    let mut lines = String::from_str("Overworld: ");
    lines.append(m.overworld.as_str());
    lines.append("\nThe Nether: ");
    lines.append(m.the_nether.as_str());
    lines.append("\nThe End: ");
    lines.append(m.the_end.as_str());
    lines
}

/// The line that shows how many players are online, and how many may be.
pub fn player_count_line(p: &PlayerMetrics) -> (line: String)
    ensures
        line@ == player_count_text(p@),
{
    let mut line = String::from_str("online: **");
    line.append(decimal_text(p.count as i64).as_str());
    line.append("** | max: **");
    line.append(decimal_text(p.max as i64).as_str());
    line.append("**");
    line
}

/// The lines that show who is online.
pub fn player_list_lines(p: &PlayerMetrics) -> (lines: String)
    ensures
        lines@ == player_list_text(p@),
{
    if p.count == 0 {
        String::from_str("There is currently nobody online.")
    } else {
        proof {
            reveal_strlit("\n");
            assert("\n"@ =~= seq!['\n']);
        }
        join_text(&p.playerlist, "\n")
    }
}

} // verus!
