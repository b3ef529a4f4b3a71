use mcadmin::config::ServerChoice;
use mcadmin::console::{requires_admin, shape_response, trim_response, KEPT, SHOWN_WHOLE};
use mcadmin::metrics::{Mobcap, PlayerMetrics, ServerPerformance};
use mcadmin::status::{
    mobcap_lines, performance_line, player_count_line, player_list_lines, state_notice,
    ServerState,
};
use mcadmin::text::{join_text, replace_text};

const MARK: &str = "...\n\nResponse was too long and was truncated.";

#[test]
fn only_the_survival_server_is_left_to_administrators() {
    assert!(requires_admin(ServerChoice::Smp));
    assert!(!requires_admin(ServerChoice::Cmp));
    assert!(!requires_admin(ServerChoice::Cmp2));
    assert!(!requires_admin(ServerChoice::Copy));
    assert!(!requires_admin(ServerChoice::Snapshots));
}

#[test]
fn short_replies_are_shown_whole() {
    assert_eq!(shape_response(Some("hello".to_string())), "```hello```");
    assert_eq!(
        shape_response(None),
        "```Command ran successfully but there was no response.```"
    );
    let at_limit = "a".repeat(SHOWN_WHOLE);
    assert_eq!(trim_response(&at_limit), at_limit);
}

#[test]
fn long_replies_are_cut_and_marked() {
    let long = "a".repeat(SHOWN_WHOLE + 1);
    let expected = format!("{}{}", "a".repeat(KEPT), MARK);
    assert_eq!(trim_response(&long), expected);
    assert_eq!(shape_response(Some(long)), format!("```{expected}```"));
}

#[test]
fn long_replies_are_not_cut_inside_a_character() {
    // Byte 1950 falls inside the two-byte character that begins at 1949.
    let long = format!("{}{}", "a".repeat(1949), "\u{e9}".repeat(100));
    assert!(long.len() > SHOWN_WHOLE);
    assert_eq!(trim_response(&long), format!("{}{}", "a".repeat(1949), MARK));
    // Four-byte characters throughout: 1948 is the last boundary at or before 1950.
    let long = "\u{1f600}".repeat(501);
    assert_eq!(trim_response(&long), format!("{}{}", "\u{1f600}".repeat(487), MARK));
}

#[test]
fn the_limit_counts_bytes() {
    // 1001 two-byte characters are 2002 bytes.
    let long = "\u{e9}".repeat(1001);
    assert_eq!(trim_response(&long), format!("{}{}", "\u{e9}".repeat(975), MARK));
    let fits = "\u{e9}".repeat(1000);
    assert_eq!(trim_response(&fits), fits);
}

#[test]
fn a_server_that_does_not_run_is_said_to() {
    assert_eq!(state_notice("SMP", ServerState::Running), None);
    assert_eq!(
        state_notice("SMP", ServerState::Offline),
        Some("SMP is currently offline!".to_string())
    );
    assert_eq!(
        state_notice("CMP", ServerState::Starting),
        Some("CMP is currently starting!".to_string())
    );
    assert_eq!(
        state_notice("Copy", ServerState::Stopping),
        Some("Copy is currently stopping!".to_string())
    );
    assert_eq!(ServerState::Running.to_string(), "running");
}

#[test]
fn metrics_are_shown_in_lines() {
    assert_eq!(
        performance_line(&ServerPerformance { mspt: 46, tps: 20 }),
        "**46** MSPT | **20** TPS"
    );
    assert_eq!(
        performance_line(&ServerPerformance { mspt: u32::MAX, tps: 0 }),
        "**4294967295** MSPT | **0** TPS"
    );
    let mobcap = Mobcap {
        overworld: "[1 | 70]".to_string(),
        the_nether: "[2 | 70]".to_string(),
        the_end: "".to_string(),
    };
    assert_eq!(
        mobcap_lines(&mobcap),
        "Overworld: [1 | 70]\nThe Nether: [2 | 70]\nThe End: "
    );
    let players = PlayerMetrics {
        count: 2,
        max: 20,
        playerlist: vec!["Alice".to_string(), "Bob".to_string()],
    };
    assert_eq!(player_count_line(&players), "online: **2** | max: **20**");
    assert_eq!(player_list_lines(&players), "Alice\nBob");
    let nobody = PlayerMetrics { count: 0, max: 65535, playerlist: vec![] };
    assert_eq!(player_count_line(&nobody), "online: **0** | max: **65535**");
    assert_eq!(player_list_lines(&nobody), "There is currently nobody online.");
}

#[test]
fn pieces_are_joined_and_occurrences_replaced() {
    assert_eq!(join_text(&vec![], ", "), "");
    assert_eq!(join_text(&vec!["a".to_string()], ", "), "a");
    assert_eq!(
        join_text(&vec!["a".to_string(), "".to_string(), "b".to_string()], ", "),
        "a, , b"
    );
    assert_eq!(replace_text("a, b, c", ", ", " | "), "a | b | c");
    assert_eq!(replace_text("abc", ", ", " | "), "abc");
    assert_eq!(replace_text("", ", ", " | "), "");
    assert_eq!(replace_text(", , ", ", ", "x"), "xx");
    assert_eq!(replace_text("aaa", "aa", "b"), "ba");
    assert_eq!(replace_text("abc", "", "x"), "abc");
    for (s, from, to) in [("a, b,, c, ", ", ", " | "), ("xxxx", "xx", "y"), ("", "a", "b")] {
        assert_eq!(replace_text(s, from, to), s.replace(from, to));
    }
}
