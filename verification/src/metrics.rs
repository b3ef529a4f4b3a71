//! What the diagnostic commands print, read into numbers and names.

use vstd::prelude::*;
use vstd::string::StringExecFns;
use crate::batch::{outcomes, CommandResult, Outcome};
use crate::pattern::{regex_replaced, replace_all, text_view};
use crate::numerals::{numeral_u16, parse_rounded, parse_u16, rounded_float};
use crate::text::{replace_text, replaced, split, split_on, views};

verus! {

/// How fast a server ticks.
#[derive(Clone, Copy, Debug, PartialEq, Eq, Structural)]
pub struct ServerPerformance {
    /// Milliseconds per tick, rounded.
    pub mspt: u32,
    /// Ticks per second.
    pub tps: u32,
}

/// Who is on a server.
#[derive(Clone, Debug, PartialEq, Eq)]
pub struct PlayerMetrics {
    pub count: u16,
    pub max: u16,
    /// The names of the players, in the order the server lists them.
    pub playerlist: Vec<String>,
}

/// Who is on a server, as the contracts speak of it.
pub ghost struct Players {
    pub count: u16,
    pub max: u16,
    pub names: Seq<Seq<char>>,
}

impl View for PlayerMetrics {
    type V = Players;

    open spec fn view(&self) -> Players {
        Players { count: self.count, max: self.max, names: views(self.playerlist@) }
    }
}

/// Why a reply could not be read.
#[derive(Clone, Debug, PartialEq, Eq)]
pub enum MetricsError {
    /// The diagnostic batch did not bring five replies with output.
    Incomplete,
    /// The tick reply does not have four words. Holds the reply.
    PerformanceShape(String),
    /// The third word of the tick reply is no number. Holds the reply.
    PerformanceNumber(String),
    /// The tick time rounds to zero. Holds the reply.
    ZeroMspt(String),
    /// The list reply has too few words, or not exactly one `": "` although
    /// players are online. Holds the reply.
    PlayerListShape(String),
    /// The count or the capacity in the list reply is no number that fits
    /// sixteen bits. Holds the reply.
    PlayerListNumber(String),
    /// A pattern that cleans the mob counts was not accepted.
    MobcapPattern,
    /// There are not exactly three mob counts.
    MobcapCount,
}

/// Why a reply could not be read, as the contracts speak of it.
pub ghost enum Fault {
    Incomplete,
    PerformanceShape(Seq<char>),
    PerformanceNumber(Seq<char>),
    ZeroMspt(Seq<char>),
    PlayerListShape(Seq<char>),
    PlayerListNumber(Seq<char>),
    MobcapPattern,
    MobcapCount,
}

impl View for MetricsError {
    type V = Fault;

    open spec fn view(&self) -> Fault {
        match self {
            MetricsError::Incomplete => Fault::Incomplete,
            MetricsError::PerformanceShape(s) => Fault::PerformanceShape(s@),
            MetricsError::PerformanceNumber(s) => Fault::PerformanceNumber(s@),
            MetricsError::ZeroMspt(s) => Fault::ZeroMspt(s@),
            MetricsError::PlayerListShape(s) => Fault::PlayerListShape(s@),
            MetricsError::PlayerListNumber(s) => Fault::PlayerListNumber(s@),
            MetricsError::MobcapPattern => Fault::MobcapPattern,
            MetricsError::MobcapCount => Fault::MobcapCount,
        }
    }
}

/// The nominal tick rate, which no server exceeds.
pub const NOMINAL_TPS: u32 = 20;

/// The longest tick, in milliseconds, at which a server keeps the nominal rate.
pub const NOMINAL_MSPT: u32 = 50;

/// A single space, the separator of words.
pub open spec fn space() -> Seq<char> {
    seq![' ']
}

/// The separator between the head of a list reply and its names.
pub open spec fn colon_space() -> Seq<char> {
    seq![':', ' ']
}

/// The separator between two names.
pub open spec fn comma_space() -> Seq<char> {
    seq![',', ' ']
}

/// Ticks per second at `mspt` milliseconds per tick: the nominal rate up to
/// the nominal tick time, beyond it the whole ticks that fit a second.
pub open spec fn tps_at(mspt: u32) -> u32 {
    if mspt <= NOMINAL_MSPT {
        NOMINAL_TPS
    } else {
        (1000int / mspt as int) as u32
    }
}

/// What a tick reply says.
///
/// The reply must be four words, each two parted by one space. The third is
/// the tick time, written as floating-point numbers are; it is rounded, and
/// must not round to zero. A tick time beyond `u32::MAX` counts as
/// `u32::MAX`.
pub open spec fn performance_of(reply: Seq<char>) -> Result<ServerPerformance, Fault> {
    let words = split_on(reply, space());
    if words.len() != 4 {
        Err(Fault::PerformanceShape(reply))
    } else {
        match rounded_float(words[2]) {
            None => Err(Fault::PerformanceNumber(reply)),
            Some(mspt) => {
                if mspt == 0 {
                    Err(Fault::ZeroMspt(reply))
                } else {
                    Ok(ServerPerformance { mspt, tps: tps_at(mspt) })
                }
            },
        }
    }
}

/// What a list reply says.
///
/// The reply must have at least eight words. The third is the number of
/// players online, the eighth the capacity. With nobody online there are no
/// names, whatever follows. Otherwise the reply must hold `": "` exactly
/// once, and what follows it is the names, each two parted by `", "`.
pub open spec fn players_of(reply: Seq<char>) -> Result<Players, Fault> {
    let words = split_on(reply, space());
    if words.len() < 8 {
        Err(Fault::PlayerListShape(reply))
    } else {
        match (numeral_u16(words[2]), numeral_u16(words[7])) {
            (Some(count), Some(max)) => {
                if count == 0 {
                    Ok(Players { count, max, names: Seq::empty() })
                } else {
                    let halves = split_on(reply, colon_space());
                    if halves.len() != 2 {
                        Err(Fault::PlayerListShape(reply))
                    } else {
                        Ok(Players { count, max, names: split_on(halves[1], comma_space()) })
                    }
                }
            },
            _ => Err(Fault::PlayerListNumber(reply)),
        }
    }
}

/// The colour that stands for a tick time: green below 30 milliseconds,
/// amber from 30, orange from 40, red from 50.
pub open spec fn colour_of(mspt: u32) -> u32 {
    if mspt < 30 {
        6_736_998
    } else if mspt < 40 {
        16_769_536
    } else if mspt < 50 {
        16_737_843
    } else {
        13_382_451
    }
}

/// The model of what `parse_performance` returns.
pub open spec fn performance_result(r: Result<ServerPerformance, MetricsError>) -> Result<
    ServerPerformance,
    Fault,
> {
    match r {
        Ok(p) => Ok(p),
        Err(e) => Err(e@),
    }
}

/// The model of what `parse_playerlist` returns.
pub open spec fn players_result(r: Result<PlayerMetrics, MetricsError>) -> Result<Players, Fault> {
    match r {
        Ok(p) => Ok(p@),
        Err(e) => Err(e@),
    }
}

/// The performance of a server with ticks of `mspt` milliseconds.
pub fn performance_at(mspt: u32) -> (p: ServerPerformance)
    ensures
        p == (ServerPerformance { mspt, tps: tps_at(mspt) }),
{
    let tps: u32 = if mspt > NOMINAL_MSPT {
        1000 / mspt
    } else {
        NOMINAL_TPS
    };
    ServerPerformance { mspt, tps }
}

/// Reads the reply to the tick command.
pub fn parse_performance(performance_response: String) -> (r: Result<
    ServerPerformance,
    MetricsError,
>)
    ensures
        performance_result(r) == performance_of(performance_response@),
{
    proof {
        reveal_strlit(" ");
        assert(" "@ =~= space());
    }
    let words = split(performance_response.as_str(), " ");
    if words.len() != 4 {
        return Err(MetricsError::PerformanceShape(performance_response));
    }
    match parse_rounded(words[2].as_str()) {
        None => Err(MetricsError::PerformanceNumber(performance_response)),
        Some(mspt) => {
            if mspt == 0 {
                Err(MetricsError::ZeroMspt(performance_response))
            } else {
                Ok(performance_at(mspt))
            }
        },
    }
}

/// Reads the reply to the list command.
pub fn parse_playerlist(list_response: String) -> (r: Result<PlayerMetrics, MetricsError>)
    ensures
        players_result(r) == players_of(list_response@),
{
    proof {
        reveal_strlit(" ");
        reveal_strlit(": ");
        reveal_strlit(", ");
        assert(" "@ =~= space());
        assert(": "@ =~= colon_space());
        assert(", "@ =~= comma_space());
    }
    let words = split(list_response.as_str(), " ");
    if words.len() < 8 {
        return Err(MetricsError::PlayerListShape(list_response));
    }
    let count = match parse_u16(words[2].as_str()) {
        Some(n) => n,
        None => {
            return Err(MetricsError::PlayerListNumber(list_response));
        },
    };
    let max = match parse_u16(words[7].as_str()) {
        Some(n) => n,
        None => {
            return Err(MetricsError::PlayerListNumber(list_response));
        },
    };
    if count == 0 {
        let playerlist: Vec<String> = Vec::new();
        assert(views(playerlist@) =~= Seq::<Seq<char>>::empty());
        return Ok(PlayerMetrics { count, max, playerlist });
    }
    let halves = split(list_response.as_str(), ": ");
    if halves.len() != 2 {
        return Err(MetricsError::PlayerListShape(list_response));
    }
    let playerlist = split(halves[1].as_str(), ", ");
    Ok(PlayerMetrics { count, max, playerlist })
}

/// Hostile mob counts against their caps, one text for each dimension.
#[derive(Clone, Debug, PartialEq, Eq)]
pub struct Mobcap {
    pub overworld: String,
    pub the_nether: String,
    pub the_end: String,
}

/// Mob counts as the contracts speak of them.
pub ghost struct Caps {
    pub overworld: Seq<char>,
    pub the_nether: Seq<char>,
    pub the_end: Seq<char>,
}

impl View for Mobcap {
    type V = Caps;

    open spec fn view(&self) -> Caps {
        Caps {
            overworld: self.overworld@,
            the_nether: self.the_nether@,
            the_end: self.the_end@,
        }
    }
}

/// Matches what is taken out of a mob count: up to three characters at the
/// beginning, anything in round brackets, and an empty list of lists.
pub open spec fn strip_pattern() -> Seq<char> {
    "^.{0,3}|\\(.*\\)|\\[\\[\\]\\]"@
}

/// The separator that a cleaned mob count has.
pub open spec fn bar() -> Seq<char> {
    seq![' ', '|', ' ']
}

/// A mob count, cleaned: first every match of the strip pattern is taken
/// out, then every `", "` becomes `" | "`. There is none where the strip
/// pattern is not accepted.
pub open spec fn cleaned(raw: Seq<char>) -> Option<Seq<char>> {
    match regex_replaced(strip_pattern(), raw, Seq::empty()) {
        Some(stripped) => Some(replaced(stripped, comma_space(), bar())),
        None => None,
    }
}

/// The cleaned mob counts as the three dimensions, which they must be.
pub open spec fn caps_of(counts: Seq<Seq<char>>) -> Result<Caps, Fault> {
    if counts.len() != 3 {
        Err(Fault::MobcapCount)
    } else {
        Ok(Caps { overworld: counts[0], the_nether: counts[1], the_end: counts[2] })
    }
}

/// What the replies to the mob count commands say: each is cleaned, and
/// there must be three. A pattern that is not accepted comes before a wrong
/// number of replies.
pub open spec fn mobcaps_of(replies: Seq<Seq<char>>) -> Result<Caps, Fault> {
    if exists|i: int| 0 <= i < replies.len() && cleaned(#[trigger] replies[i]) is None {
        Err(Fault::MobcapPattern)
    } else {
        caps_of(Seq::new(replies.len(), |i: int| cleaned(replies[i])->Some_0))
    }
}

/// The model of what `parse_mobcaps` returns.
pub open spec fn mobcap_result(r: Result<Mobcap, MetricsError>) -> Result<Caps, Fault> {
    match r {
        Ok(m) => Ok(m@),
        Err(e) => Err(e@),
    }
}

/// Cleans one mob count.
pub fn clean_mobcap(raw: &str) -> (out: Option<String>)
    ensures
        text_view(out) == cleaned(raw@),
{
    proof {
        reveal_strlit("");
        reveal_strlit(", ");
        reveal_strlit(" | ");
        assert(""@ =~= Seq::<char>::empty());
        assert(", "@ =~= comma_space());
        assert(" | "@ =~= bar());
    }
    match replace_all("^.{0,3}|\\(.*\\)|\\[\\[\\]\\]", raw, "") {
        Some(stripped) => Some(replace_text(stripped.as_str(), ", ", " | ")),
        None => None,
    }
}

/// Takes three cleaned mob counts as those of the overworld, the nether and
/// the end.
pub fn mobcap_from(counts: Vec<String>) -> (r: Result<Mobcap, MetricsError>)
    ensures
        mobcap_result(r) == caps_of(views(counts@)),
{
    if counts.len() != 3 {
        return Err(MetricsError::MobcapCount);
    }
    Ok(
        Mobcap {
            overworld: counts[0].clone(),
            the_nether: counts[1].clone(),
            the_end: counts[2].clone(),
        },
    )
}

/// Reads the replies to the three mob count commands.
pub fn parse_mobcaps(mobcap_responses: Vec<String>) -> (r: Result<Mobcap, MetricsError>)
    ensures
        mobcap_result(r) == mobcaps_of(views(mobcap_responses@)),
{
    let ghost replies = views(mobcap_responses@);
    let mut counts: Vec<String> = Vec::new();
    let mut i: usize = 0;
    while i < mobcap_responses.len()
        invariant
            i <= mobcap_responses.len(),
            replies == views(mobcap_responses@),
            counts@.len() == i,
            forall|j: int| 0 <= j < i ==> cleaned(#[trigger] replies[j]) == Some(counts@[j]@),
        decreases mobcap_responses.len() - i,
    {
        match clean_mobcap(mobcap_responses[i].as_str()) {
            Some(count) => {
                counts.push(count);
            },
            None => {
                assert(cleaned(replies[i as int]) is None);
                return Err(MetricsError::MobcapPattern);
            },
        }
        i = i + 1;
    }
    assert(views(counts@) =~= Seq::new(replies.len(), |i: int| cleaned(replies[i])->Some_0));
    mobcap_from(counts)
}

/// One look at a server: mob counts, performance and players.
#[derive(Clone, Debug, PartialEq, Eq)]
pub struct ServerMetrics {
    pub mobcap: Mobcap,
    pub performance: ServerPerformance,
    pub players: PlayerMetrics,
}

/// One look at a server, as the contracts speak of it.
pub ghost struct Snapshot {
    pub mobcap: Caps,
    pub performance: ServerPerformance,
    pub players: Players,
}

impl View for ServerMetrics {
    type V = Snapshot;

    open spec fn view(&self) -> Snapshot {
        Snapshot {
            mobcap: self.mobcap@,
            performance: self.performance,
            players: self.players@,
        }
    }
}

/// The number of diagnostic commands.
pub const DIAGNOSTIC_COUNT: usize = 5;

/// The diagnostic commands: the hostile mob counts of the three dimensions,
/// the mean of the last tick times, and the list of players.
pub open spec fn diagnostic_commands() -> Seq<Seq<char>> {
    seq![
        "execute in minecraft:overworld run script run get_mob_counts('monster')"@,
        "execute in minecraft:the_nether run script run get_mob_counts('monster')"@,
        "execute in minecraft:the_end run script run get_mob_counts('monster')"@,
        "script run reduce(system_info('server_last_tick_times'), _a+_, 0)/100"@,
        "list"@,
    ]
}

/// Every outcome is a reply with output.
pub open spec fn all_text(results: Seq<Outcome>) -> bool {
    forall|i: int| 0 <= i < results.len() ==> #[trigger] results[i] is Text
}

/// What the outcomes of the diagnostic commands say of a server.
///
/// There must be five outcomes, each a reply with output: else the
/// diagnostics are incomplete, whichever command it was. The first three are
/// the mob counts, the fourth the tick time, the fifth the list of players;
/// they are read in this order, and the first that cannot be read decides
/// the error. Nothing is returned in part.
pub open spec fn metrics_of(results: Seq<Outcome>) -> Result<Snapshot, Fault> {
    if results.len() != DIAGNOSTIC_COUNT || !all_text(results) {
        Err(Fault::Incomplete)
    } else {
        match mobcaps_of(seq![results[0]->Text_0, results[1]->Text_0, results[2]->Text_0]) {
            Err(e) => Err(e),
            Ok(mobcap) => match performance_of(results[3]->Text_0) {
                Err(e) => Err(e),
                Ok(performance) => match players_of(results[4]->Text_0) {
                    Err(e) => Err(e),
                    Ok(players) => Ok(Snapshot { mobcap, performance, players }),
                },
            },
        }
    }
}

/// The model of what `server_metrics` returns.
pub open spec fn metrics_result(r: Result<ServerMetrics, MetricsError>) -> Result<Snapshot, Fault> {
    match r {
        Ok(m) => Ok(m@),
        Err(e) => Err(e@),
    }
}

/// The diagnostic commands, in the order in which their replies are read.
pub fn metrics_commands() -> (commands: Vec<String>)
    ensures
        views(commands@) == diagnostic_commands(),
{
    let mut commands: Vec<String> = Vec::new();
    commands.push(
        String::from_str("execute in minecraft:overworld run script run get_mob_counts('monster')"),
    );
    commands.push(
        String::from_str(
            "execute in minecraft:the_nether run script run get_mob_counts('monster')",
        ),
    );
    commands.push(
        String::from_str("execute in minecraft:the_end run script run get_mob_counts('monster')"),
    );
    commands.push(
        String::from_str("script run reduce(system_info('server_last_tick_times'), _a+_, 0)/100"),
    );
    commands.push(String::from_str("list"));
    assert(views(commands@) =~= diagnostic_commands());
    commands
}

/// The output of every outcome, where every outcome has output.
fn texts_of(results: &Vec<CommandResult>) -> (texts: Option<Vec<String>>)
    ensures
        texts is Some <==> all_text(outcomes(results@)),
        texts matches Some(t) ==> t@.len() == results@.len() && forall|i: int|
            0 <= i < t@.len() ==> Outcome::Text(#[trigger] t@[i]@) == results@[i]@,
{
    let mut texts: Vec<String> = Vec::new();
    let mut i: usize = 0;
    while i < results.len()
        invariant
            i <= results.len(),
            texts@.len() == i,
            forall|j: int| 0 <= j < i ==> Outcome::Text(#[trigger] texts@[j]@) == results@[j]@,
        decreases results.len() - i,
    {
        match &results[i] {
            CommandResult::Text(s) => {
                texts.push(s.clone());
            },
            _ => {
                assert(!(outcomes(results@)[i as int] is Text));
                return None;
            },
        }
        i = i + 1;
    }
    assert forall|j: int| 0 <= j < results@.len() implies #[trigger] outcomes(results@)[j] is Text by {
        assert(Outcome::Text(texts@[j]@) == results@[j]@);
    }
    Some(texts)
}

/// Reads the outcomes of the diagnostic commands.
pub fn server_metrics(results: &Vec<CommandResult>) -> (r: Result<ServerMetrics, MetricsError>)
    ensures
        metrics_result(r) == metrics_of(outcomes(results@)),
{
    if results.len() != DIAGNOSTIC_COUNT {
        return Err(MetricsError::Incomplete);
    }
    let texts = match texts_of(results) {
        Some(t) => t,
        None => {
            return Err(MetricsError::Incomplete);
        },
    };
    let ghost model = outcomes(results@);
    proof {
        assert(Outcome::Text(texts@[0]@) == results@[0]@);
        assert(Outcome::Text(texts@[1]@) == results@[1]@);
        assert(Outcome::Text(texts@[2]@) == results@[2]@);
        assert(Outcome::Text(texts@[3]@) == results@[3]@);
        assert(Outcome::Text(texts@[4]@) == results@[4]@);
    }
    let mut counts: Vec<String> = Vec::new();
    counts.push(texts[0].clone());
    counts.push(texts[1].clone());
    counts.push(texts[2].clone());
    assert(views(counts@) =~= seq![model[0]->Text_0, model[1]->Text_0, model[2]->Text_0]);
    let mobcap = match parse_mobcaps(counts) {
        Ok(m) => m,
        Err(e) => {
            return Err(e);
        },
    };
    let performance = match parse_performance(texts[3].clone()) {
        Ok(p) => p,
        Err(e) => {
            return Err(e);
        },
    };
    let players = match parse_playerlist(texts[4].clone()) {
        Ok(p) => p,
        Err(e) => {
            return Err(e);
        },
    };
    Ok(ServerMetrics { mobcap, performance, players })
}

/// The colour that stands for a tick time.
pub fn calculate_embed_color(mspt: u32) -> (colour: u32)
    ensures
        colour == colour_of(mspt),
{
    if mspt < 30 {
        6_736_998
    } else if mspt < 40 {
        16_769_536
    } else if mspt < 50 {
        16_737_843
    } else {
        13_382_451
    }
}

} // verus!
