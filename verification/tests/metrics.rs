use mcadmin::batch::CommandResult;
use mcadmin::connection::ConnError;
use mcadmin::metrics::{
    calculate_embed_color, clean_mobcap, metrics_commands, mobcap_from, parse_mobcaps,
    parse_performance, parse_playerlist, performance_at, server_metrics, MetricsError, Mobcap,
    PlayerMetrics, ServerMetrics, ServerPerformance,
};

const GREEN: u32 = 6_736_998;
const AMBER: u32 = 16_769_536;
const ORANGE: u32 = 16_737_843;
const RED: u32 = 13_382_451;

fn text(s: &str) -> CommandResult {
    CommandResult::Text(s.to_string())
}

#[test]
fn performance_below_the_nominal_tick_time() {
    assert_eq!(
        parse_performance("tick info 45.6 ms".to_string()),
        Ok(ServerPerformance { mspt: 46, tps: 20 })
    );
}

#[test]
fn performance_above_the_nominal_tick_time() {
    assert_eq!(
        parse_performance("tick info 83.0 ms".to_string()),
        Ok(ServerPerformance { mspt: 83, tps: 12 })
    );
}

#[test]
fn performance_agrees_with_float_rounding() {
    for token in ["45.6", "83.0", "0.5", "1.4999", "50.49", "50.5", "999.99", "7", "12.", ".6"] {
        let expected = token.parse::<f32>().unwrap().round() as u32;
        let got = parse_performance(format!("a b {token} c")).unwrap();
        assert_eq!(got.mspt, expected);
    }
}

#[test]
fn performance_at_the_boundary_of_the_nominal_rate() {
    assert_eq!(performance_at(50), ServerPerformance { mspt: 50, tps: 20 });
    assert_eq!(performance_at(51), ServerPerformance { mspt: 51, tps: 19 });
    assert_eq!(performance_at(1), ServerPerformance { mspt: 1, tps: 20 });
    assert_eq!(performance_at(0), ServerPerformance { mspt: 0, tps: 20 });
    assert_eq!(performance_at(1000), ServerPerformance { mspt: 1000, tps: 1 });
    assert_eq!(performance_at(1001), ServerPerformance { mspt: 1001, tps: 0 });
    assert_eq!(
        parse_performance("x x 50.4 x".to_string()),
        Ok(ServerPerformance { mspt: 50, tps: 20 })
    );
    assert_eq!(
        parse_performance("x x 50.5 x".to_string()),
        Ok(ServerPerformance { mspt: 51, tps: 19 })
    );
}

#[test]
fn performance_wants_four_words() {
    assert_eq!(
        parse_performance("bad response".to_string()),
        Err(MetricsError::PerformanceShape("bad response".to_string()))
    );
    assert_eq!(
        parse_performance("tick info  45.6 ms".to_string()),
        Err(MetricsError::PerformanceShape("tick info  45.6 ms".to_string()))
    );
    assert_eq!(
        parse_performance("".to_string()),
        Err(MetricsError::PerformanceShape("".to_string()))
    );
}

#[test]
fn performance_wants_a_number() {
    for token in ["ms", "", "4,5", "1.2.3", ".", "+", "--1", "4 5"] {
        let reply = format!("tick info {token} ms");
        let got = parse_performance(reply.clone());
        if token.contains(' ') {
            assert_eq!(got, Err(MetricsError::PerformanceShape(reply)));
        } else {
            assert_eq!(got, Err(MetricsError::PerformanceNumber(reply)));
        }
    }
}

#[test]
fn performance_refuses_a_tick_time_that_rounds_to_zero() {
    for token in ["0", "0.0", "0.4", "0.49", "-3.2", "-0.7", "+0.1"] {
        let reply = format!("tick info {token} ms");
        assert_eq!(
            parse_performance(reply.clone()),
            Err(MetricsError::ZeroMspt(reply))
        );
    }
}

#[test]
fn performance_reads_exponents_and_words_as_floats_are_read() {
    assert_eq!(
        parse_performance("tick info 1e3 ms".to_string()),
        Ok(ServerPerformance { mspt: 1000, tps: 1 })
    );
    assert_eq!(
        parse_performance("tick info 4.56E1 ms".to_string()),
        Ok(ServerPerformance { mspt: 46, tps: 20 })
    );
    assert_eq!(
        parse_performance("tick info 830e-1 ms".to_string()),
        Ok(ServerPerformance { mspt: 83, tps: 12 })
    );
    assert_eq!(
        parse_performance("tick info inf ms".to_string()),
        Ok(ServerPerformance { mspt: u32::MAX, tps: 0 })
    );
    for token in ["NaN", "-inf", "1e-3", "0e5", "-1e3"] {
        let reply = format!("tick info {token} ms");
        assert_eq!(parse_performance(reply.clone()), Err(MetricsError::ZeroMspt(reply)));
    }
    for token in ["1e", "e3", "infinit", "1e3.5"] {
        let reply = format!("tick info {token} ms");
        assert_eq!(parse_performance(reply.clone()), Err(MetricsError::PerformanceNumber(reply)));
    }
}

#[test]
fn performance_caps_a_huge_tick_time() {
    assert_eq!(
        parse_performance("a b 4294967295 c".to_string()),
        Ok(ServerPerformance { mspt: u32::MAX, tps: 0 })
    );
    assert_eq!(
        parse_performance("a b 99999999999999999999999999.5 c".to_string()),
        Ok(ServerPerformance { mspt: u32::MAX, tps: 0 })
    );
    assert_eq!(
        parse_performance("a b 4294967294.5 c".to_string()),
        Ok(ServerPerformance { mspt: u32::MAX, tps: 0 })
    );
    assert_eq!(
        parse_performance("a b 4294967293.5 c".to_string()),
        Ok(ServerPerformance { mspt: 4294967294, tps: 0 })
    );
}

#[test]
fn playerlist_with_nobody_online() {
    assert_eq!(
        parse_playerlist("There are 0 of a max of 20 players online: ".to_string()),
        Ok(PlayerMetrics { count: 0, max: 20, playerlist: vec![] })
    );
}

#[test]
fn playerlist_with_nobody_online_skips_the_names() {
    // No ": " at all, and two of them: neither matters when the count is 0.
    assert_eq!(
        parse_playerlist("There are 0 of a max of 20 players online".to_string()),
        Ok(PlayerMetrics { count: 0, max: 20, playerlist: vec![] })
    );
    assert_eq!(
        parse_playerlist("There are 0 of a max of 20 players: online: x".to_string()),
        Ok(PlayerMetrics { count: 0, max: 20, playerlist: vec![] })
    );
}

#[test]
fn playerlist_with_two_players() {
    assert_eq!(
        parse_playerlist("There are 2 of a max of 20 players online: Alice, Bob".to_string()),
        Ok(PlayerMetrics {
            count: 2,
            max: 20,
            playerlist: vec!["Alice".to_string(), "Bob".to_string()],
        })
    );
}

#[test]
fn playerlist_keeps_the_order_of_the_server() {
    let got =
        parse_playerlist("There are 3 of a max of 5 players online: zed, Amy, _bob".to_string())
            .unwrap();
    assert_eq!(got.playerlist, vec!["zed", "Amy", "_bob"]);
    assert_eq!((got.count, got.max), (3, 5));
}

#[test]
fn playerlist_in_the_short_form_has_too_few_words() {
    for reply in ["There are 0/20 players online: ", "There are 2/20 players online: Alice, Bob"] {
        assert_eq!(
            parse_playerlist(reply.to_string()),
            Err(MetricsError::PlayerListShape(reply.to_string()))
        );
    }
}

#[test]
fn playerlist_wants_numbers_that_fit() {
    for reply in [
        "There are two of a max of 20 players online: Alice, Bob",
        "There are 2 of a max of many players online: Alice, Bob",
        "There are -1 of a max of 20 players online: Alice",
        "There are 1 of a max of 65536 players online: Alice",
        "There are  of a max of 20 players online: Alice",
    ] {
        assert_eq!(
            parse_playerlist(reply.to_string()),
            Err(MetricsError::PlayerListNumber(reply.to_string()))
        );
    }
    assert_eq!(
        parse_playerlist("There are +1 of a max of 65535 players online: Al".to_string()),
        Ok(PlayerMetrics { count: 1, max: 65535, playerlist: vec!["Al".to_string()] })
    );
}

#[test]
fn playerlist_with_players_wants_one_colon_space() {
    for reply in [
        "There are 2 of a max of 20 players online Alice, Bob",
        "There are 2 of a max of 20 players online: Alice: Bob",
    ] {
        assert_eq!(
            parse_playerlist(reply.to_string()),
            Err(MetricsError::PlayerListShape(reply.to_string()))
        );
    }
}

#[test]
fn colour_bands_begin_at_30_40_and_50() {
    assert_eq!(calculate_embed_color(0), GREEN);
    assert_eq!(calculate_embed_color(29), GREEN);
    assert_eq!(calculate_embed_color(30), AMBER);
    assert_eq!(calculate_embed_color(39), AMBER);
    assert_eq!(calculate_embed_color(40), ORANGE);
    assert_eq!(calculate_embed_color(49), ORANGE);
    assert_eq!(calculate_embed_color(50), RED);
    assert_eq!(calculate_embed_color(100), RED);
    assert_eq!(calculate_embed_color(u32::MAX), RED);
}

#[test]
fn mobcap_is_cleaned_by_the_two_patterns() {
    assert_eq!(clean_mobcap(" = [12, 70]"), Some("[12 | 70]".to_string()));
    assert_eq!(
        clean_mobcap(" = [3, 70] (0.04ms)"),
        Some("[3 | 70] ".to_string())
    );
    assert_eq!(clean_mobcap(" = [[]]"), Some("".to_string()));
    assert_eq!(clean_mobcap(""), Some("".to_string()));
    assert_eq!(clean_mobcap("ab"), Some("".to_string()));
    assert_eq!(clean_mobcap("abcd, e"), Some("d | e".to_string()));
}

#[test]
fn mobcaps_are_the_three_dimensions_in_order() {
    let got = parse_mobcaps(vec![
        " = [1, 70]".to_string(),
        " = [2, 70]".to_string(),
        " = [3, 70]".to_string(),
    ]);
    assert_eq!(
        got,
        Ok(Mobcap {
            overworld: "[1 | 70]".to_string(),
            the_nether: "[2 | 70]".to_string(),
            the_end: "[3 | 70]".to_string(),
        })
    );
}

#[test]
fn mobcaps_must_be_three() {
    assert_eq!(parse_mobcaps(vec![]), Err(MetricsError::MobcapCount));
    assert_eq!(
        parse_mobcaps(vec!["a".to_string(), "b".to_string()]),
        Err(MetricsError::MobcapCount)
    );
    assert_eq!(
        parse_mobcaps(vec!["a".to_string(); 4]),
        Err(MetricsError::MobcapCount)
    );
    assert_eq!(mobcap_from(vec!["a".to_string()]), Err(MetricsError::MobcapCount));
    assert_eq!(
        mobcap_from(vec!["a".to_string(), "b".to_string(), "c".to_string()]),
        Ok(Mobcap {
            overworld: "a".to_string(),
            the_nether: "b".to_string(),
            the_end: "c".to_string(),
        })
    );
}

#[test]
fn metrics_commands_are_the_five_diagnostics() {
    assert_eq!(
        metrics_commands(),
        vec![
            "execute in minecraft:overworld run script run get_mob_counts('monster')",
            "execute in minecraft:the_nether run script run get_mob_counts('monster')",
            "execute in minecraft:the_end run script run get_mob_counts('monster')",
            "script run reduce(system_info('server_last_tick_times'), _a+_, 0)/100",
            "list",
        ]
    );
}

fn good_replies() -> Vec<CommandResult> {
    vec![
        text(" = [10, 70]"),
        text(" = [20, 70]"),
        text(" = [[]]x"),
        text(" = 45.6 (0.1ms)"),
        text("There are 2 of a max of 20 players online: Alice, Bob"),
    ]
}

#[test]
fn metrics_from_five_good_replies() {
    assert_eq!(
        server_metrics(&good_replies()),
        Ok(ServerMetrics {
            mobcap: Mobcap {
                overworld: "[10 | 70]".to_string(),
                the_nether: "[20 | 70]".to_string(),
                the_end: "x".to_string(),
            },
            performance: ServerPerformance { mspt: 46, tps: 20 },
            players: PlayerMetrics {
                count: 2,
                max: 20,
                playerlist: vec!["Alice".to_string(), "Bob".to_string()],
            },
        })
    );
}

#[test]
fn metrics_are_incomplete_without_five_texts() {
    assert_eq!(server_metrics(&vec![]), Err(MetricsError::Incomplete));
    let mut four = good_replies();
    four.pop();
    assert_eq!(server_metrics(&four), Err(MetricsError::Incomplete));
    let mut six = good_replies();
    six.push(text("more"));
    assert_eq!(server_metrics(&six), Err(MetricsError::Incomplete));
    for at in 0..5 {
        let mut empty = good_replies();
        empty[at] = CommandResult::Empty;
        assert_eq!(server_metrics(&empty), Err(MetricsError::Incomplete));
        let mut failed = good_replies();
        failed[at] = CommandResult::Failed(ConnError::Timeout);
        assert_eq!(server_metrics(&failed), Err(MetricsError::Incomplete));
    }
}

#[test]
fn metrics_fail_as_a_whole_on_one_bad_reply() {
    let mut replies = good_replies();
    replies[3] = text("bad response");
    assert_eq!(
        server_metrics(&replies),
        Err(MetricsError::PerformanceShape("bad response".to_string()))
    );
    let mut replies = good_replies();
    replies[4] = text("nobody here");
    assert_eq!(
        server_metrics(&replies),
        Err(MetricsError::PlayerListShape("nobody here".to_string()))
    );
    // The tick time is read before the list: its fault is the one reported.
    let mut replies = good_replies();
    replies[3] = text("a b 0 c");
    replies[4] = text("nobody here");
    assert_eq!(
        server_metrics(&replies),
        Err(MetricsError::ZeroMspt("a b 0 c".to_string()))
    );
}
