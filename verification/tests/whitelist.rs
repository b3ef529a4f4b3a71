use mcadmin::batch::CommandResult;
use mcadmin::config::ServerConfig;
use mcadmin::connection::ConnError;
use mcadmin::whitelist::{
    get_whitelist_add_commands, get_whitelist_remove_commands, parse_whitelist, report_field,
    report_title, server_label, whitelist_commands, whitelist_entry, whitelist_names,
    whitelist_report, ListError, OpResult, Unrecognized, WhitelistResult, WhitelistResultElement,
};

fn text(s: &str) -> CommandResult {
    CommandResult::Text(s.to_string())
}

fn server(name: &str, operator: bool) -> ServerConfig {
    ServerConfig {
        server_name: name.to_string(),
        host: "127.0.0.1".to_string(),
        port: 25565,
        rcon_port: 25575,
        rcon_password: "secret".to_string(),
        panel_id: "abc".to_string(),
        operator,
    }
}

fn unrecognized(s: &str) -> Unrecognized {
    Unrecognized { response: s.to_string() }
}

#[test]
fn whitelist_reply_added_is_success() {
    assert_eq!(
        WhitelistResult::from_str("Added Steve to the whitelist"),
        Ok(WhitelistResult::Success)
    );
    assert_eq!(
        WhitelistResult::from_str("Removed Steve from the whitelist"),
        Ok(WhitelistResult::Success)
    );
    assert_eq!(WhitelistResult::from_str("Added"), Ok(WhitelistResult::Success));
}

#[test]
fn whitelist_reply_already_is_already() {
    assert_eq!(
        WhitelistResult::from_str("Player is already whitelisted"),
        Ok(WhitelistResult::Already)
    );
    assert_eq!(
        WhitelistResult::from_str("Player is not whitelisted"),
        Ok(WhitelistResult::Already)
    );
}

#[test]
fn whitelist_reply_garbage_is_not_recognized() {
    for line in [
        "garbage",
        "",
        "added Steve",
        " Added Steve",
        "Player is already whitelisted.",
        "Player is already whitelisted ",
        "Remove",
    ] {
        assert_eq!(WhitelistResult::from_str(line), Err(unrecognized(line)));
    }
}

#[test]
fn op_reply_is_classified_by_its_beginning() {
    assert_eq!(
        OpResult::from_str("Nothing changed. The player already is an operator"),
        Ok(OpResult::Already)
    );
    assert_eq!(OpResult::from_str("Nothing changed."), Ok(OpResult::Already));
    assert_eq!(
        OpResult::from_str("Made Steve a server operator"),
        Ok(OpResult::Success)
    );
    assert_eq!(
        OpResult::from_str("Made Steve no longer a server operator"),
        Ok(OpResult::Success)
    );
    for line in ["garbage", "", "Nothing changed", "made Steve", "Added Steve"] {
        assert_eq!(OpResult::from_str(line), Err(unrecognized(line)));
    }
}

#[test]
fn add_commands_with_and_without_operator() {
    assert_eq!(
        get_whitelist_add_commands("Steve", false),
        vec!["whitelist add Steve"]
    );
    assert_eq!(
        get_whitelist_add_commands("Steve", true),
        vec!["whitelist add Steve", "op Steve"]
    );
}

#[test]
fn remove_commands_with_and_without_operator() {
    assert_eq!(
        get_whitelist_remove_commands("Steve", false),
        vec!["whitelist remove Steve"]
    );
    assert_eq!(
        get_whitelist_remove_commands("Steve", true),
        vec!["whitelist remove Steve", "deop Steve"]
    );
}

#[test]
fn commands_for_a_server_follow_its_operator_flag() {
    assert_eq!(
        whitelist_commands("Alex", &server("smp", false), true),
        vec!["whitelist add Alex"]
    );
    assert_eq!(
        whitelist_commands("Alex", &server("cmp", true), true),
        vec!["whitelist add Alex", "op Alex"]
    );
    assert_eq!(
        whitelist_commands("Alex", &server("cmp", true), false),
        vec!["whitelist remove Alex", "deop Alex"]
    );
}

#[test]
fn server_label_is_the_name_of_the_choice() {
    assert_eq!(server_label(&server("smp", false)), "SMP");
    assert_eq!(server_label(&server("cmp", false)), "CMP");
    assert_eq!(server_label(&server("cmp2", false)), "CMP2");
    assert_eq!(server_label(&server("copy", false)), "Copy");
    assert_eq!(server_label(&server("snapshots", false)), "Snapshots");
    assert_eq!(server_label(&server("lobby", false)), "lobby");
}

#[test]
fn entry_of_a_server_without_operators() {
    let entry = whitelist_entry(&server("smp", false), &vec![text("Added Steve to the whitelist")]);
    assert_eq!(
        entry,
        WhitelistResultElement {
            server: "SMP".to_string(),
            whitelist: WhitelistResult::Success,
            op: None,
        }
    );
}

#[test]
fn entry_of_a_server_with_operators() {
    let entry = whitelist_entry(
        &server("cmp", true),
        &vec![
            text("Player is already whitelisted"),
            text("Made Steve a server operator"),
        ],
    );
    assert_eq!(
        entry,
        WhitelistResultElement {
            server: "CMP".to_string(),
            whitelist: WhitelistResult::Already,
            op: Some(OpResult::Success),
        }
    );
}

#[test]
fn entry_fails_where_a_reply_is_missing_or_not_understood() {
    let cmp = server("cmp", true);
    for run in [
        vec![],
        vec![CommandResult::Empty, CommandResult::Empty],
        vec![
            CommandResult::Failed(ConnError::Timeout),
            CommandResult::Failed(ConnError::NotReady),
        ],
        vec![text("garbage"), text("garbage")],
    ] {
        assert_eq!(
            whitelist_entry(&cmp, &run),
            WhitelistResultElement {
                server: "CMP".to_string(),
                whitelist: WhitelistResult::Fail,
                op: Some(OpResult::Fail),
            }
        );
    }
    // One command's trouble is not the other's.
    assert_eq!(
        whitelist_entry(&cmp, &vec![text("garbage"), text("Nothing changed.")]),
        WhitelistResultElement {
            server: "CMP".to_string(),
            whitelist: WhitelistResult::Fail,
            op: Some(OpResult::Already),
        }
    );
    assert_eq!(
        whitelist_entry(&cmp, &vec![text("Added Steve to the whitelist")]),
        WhitelistResultElement {
            server: "CMP".to_string(),
            whitelist: WhitelistResult::Success,
            op: Some(OpResult::Fail),
        }
    );
}

#[test]
fn report_has_an_entry_for_every_server() {
    let servers = vec![server("smp", false), server("cmp", true), server("copy", false)];
    // The second server could not be reached.
    let runs = vec![
        vec![text("Added Steve to the whitelist")],
        vec![],
        vec![text("Player is already whitelisted")],
    ];
    assert_eq!(
        whitelist_report(&servers, &runs),
        vec![
            WhitelistResultElement {
                server: "SMP".to_string(),
                whitelist: WhitelistResult::Success,
                op: None,
            },
            WhitelistResultElement {
                server: "CMP".to_string(),
                whitelist: WhitelistResult::Fail,
                op: Some(OpResult::Fail),
            },
            WhitelistResultElement {
                server: "Copy".to_string(),
                whitelist: WhitelistResult::Already,
                op: None,
            },
        ]
    );
}

#[test]
fn report_counts_a_missing_run_as_a_failure() {
    let servers = vec![server("smp", false), server("cmp", false)];
    let report = whitelist_report(&servers, &vec![vec![text("Removed Steve")]]);
    assert_eq!(report.len(), 2);
    assert_eq!(report[0].whitelist, WhitelistResult::Success);
    assert_eq!(report[1].whitelist, WhitelistResult::Fail);
    assert_eq!(whitelist_report(&vec![], &vec![vec![text("x")]]), vec![]);
}

#[test]
fn report_title_names_the_player() {
    assert_eq!(report_title("Steve"), "Whitelist Results for Steve");
}

#[test]
fn report_field_shows_both_results() {
    let element = WhitelistResultElement {
        server: "SMP".to_string(),
        whitelist: WhitelistResult::Success,
        op: None,
    };
    assert_eq!(
        report_field(&element),
        ("SMP".to_string(), "**Whitelist**: Success".to_string())
    );
    let element = WhitelistResultElement {
        server: "CMP".to_string(),
        whitelist: WhitelistResult::Already,
        op: Some(OpResult::Fail),
    };
    assert_eq!(
        report_field(&element),
        (
            "CMP".to_string(),
            "**Whitelist**: Already\n**Operator**: Failed".to_string()
        )
    );
    let element = WhitelistResultElement {
        server: "Copy".to_string(),
        whitelist: WhitelistResult::Fail,
        op: Some(OpResult::Already),
    };
    assert_eq!(
        report_field(&element).1,
        "**Whitelist**: Failed\n**Operator**: Already"
    );
    let element = WhitelistResultElement {
        server: "Copy".to_string(),
        whitelist: WhitelistResult::Fail,
        op: Some(OpResult::Success),
    };
    assert_eq!(
        report_field(&element).1,
        "**Whitelist**: Failed\n**Operator**: Success"
    );
}

#[test]
fn whitelist_listing_is_read_and_sorted() {
    assert_eq!(
        parse_whitelist("There are 3 whitelisted player(s): steve, Alex, _bob"),
        Some(vec!["_bob".to_string(), "Alex".to_string(), "steve".to_string()])
    );
    assert_eq!(parse_whitelist("There are no whitelisted players"), None);
    // What follows a second ": " is not part of the names.
    assert_eq!(
        parse_whitelist("a: b, c: d"),
        Some(vec!["b".to_string(), "c".to_string()])
    );
    assert_eq!(parse_whitelist("names: "), Some(vec!["".to_string()]));
}

#[test]
fn whitelist_names_come_from_the_first_output() {
    assert_eq!(
        whitelist_names(&vec![text("There are 2 whitelisted player(s): b, a")]),
        Ok(vec!["a".to_string(), "b".to_string()])
    );
    assert_eq!(
        whitelist_names(&vec![CommandResult::Empty, text("x: q, p"), text("y: z")]),
        Ok(vec!["p".to_string(), "q".to_string()])
    );
    assert_eq!(whitelist_names(&vec![]), Err(ListError::NoResponse));
    assert_eq!(
        whitelist_names(&vec![
            CommandResult::Empty,
            CommandResult::Failed(ConnError::Socket)
        ]),
        Err(ListError::NoResponse)
    );
    assert_eq!(
        whitelist_names(&vec![text("There are no whitelisted players")]),
        Err(ListError::Unexpected("There are no whitelisted players".to_string()))
    );
}
