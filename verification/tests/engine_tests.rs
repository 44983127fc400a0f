use mc_poller::address::ServerAddress;
use mc_poller::engine::{run_cycle, OutputMode, PollConfig, PollState};
use mc_poller::error::ProtocolError;
use mc_poller::model::{Edition, JavaData, PlayerEntry, ResponseModel};

fn java_model(online: i64, max: i64, sample: Option<Vec<PlayerEntry>>) -> ResponseModel {
    ResponseModel::Java(JavaData {
        description: String::from("d"),
        version_name: String::from("v"),
        online,
        max,
        sample,
        map: None,
        gamemode: None,
        software: None,
        plugins: None,
        mods: None,
    })
}

#[test]
fn model_carries_its_edition_tag() {
    let m = java_model(0, 0, None);
    assert_eq!(m.edition(), Edition::Java);
}

fn cycle(
    state: &mut PollState,
    online: i64,
    max: i64,
    mode: OutputMode,
    logging: bool,
) -> Option<String> {
    let m = java_model(online, max, None);
    run_cycle(state, &m, "rendered", "ts", "addr", mode, logging)
}

#[test]
fn players_mode_identical_cycles_log_nothing() {
    let mut st = PollState::new();
    assert!(cycle(&mut st, 3, 10, OutputMode::Players, true).is_none());
    assert!(cycle(&mut st, 3, 10, OutputMode::Players, true).is_none());
}

#[test]
fn players_mode_logs_exactly_the_change() {
    let mut st = PollState::new();
    assert!(cycle(&mut st, 3, 10, OutputMode::Players, true).is_none());
    let entry = cycle(&mut st, 4, 10, OutputMode::Players, true).unwrap();
    assert!(entry.contains("4"), "entry should name the new count: {}", entry);
    assert!(entry.contains("(Iteration 2)"), "entry should name the iteration: {}", entry);
    // Three identical cycles after the one change: no further writes.
    assert!(cycle(&mut st, 4, 10, OutputMode::Players, true).is_none());
    assert!(cycle(&mut st, 4, 10, OutputMode::Players, true).is_none());
    assert!(cycle(&mut st, 4, 10, OutputMode::Players, true).is_none());
}

#[test]
fn players_mode_counts_max_changes_too() {
    let mut st = PollState::new();
    assert!(cycle(&mut st, 3, 10, OutputMode::Players, true).is_none());
    assert!(cycle(&mut st, 3, 20, OutputMode::Players, true).is_some());
}

#[test]
fn all_mode_logs_every_cycle() {
    let mut st = PollState::new();
    let mut writes = 0;
    for i in 0..5 {
        // The counts never change, yet every cycle is written.
        if cycle(&mut st, 7, 10, OutputMode::All, true).is_some() {
            writes += 1;
        }
        assert_eq!(st.iteration(), (i + 2) as u64);
    }
    assert_eq!(writes, 5);
}

#[test]
fn logging_disabled_writes_nothing() {
    let mut st = PollState::new();
    assert!(cycle(&mut st, 1, 2, OutputMode::All, false).is_none());
    assert!(cycle(&mut st, 3, 4, OutputMode::Players, false).is_none());
    assert_eq!(st.iteration(), 3);
}

#[test]
fn iteration_starts_at_one_and_never_skips() {
    let mut st = PollState::new();
    assert_eq!(st.iteration(), 1);
    for i in 0..10 {
        let mode = if i % 2 == 0 { OutputMode::Players } else { OutputMode::All };
        cycle(&mut st, i, 10, mode, true);
        assert_eq!(st.iteration(), (i + 2) as u64);
    }
}

#[test]
fn all_mode_strips_color_sequences() {
    let mut st = PollState::new();
    let m = java_model(1, 2, None);
    let rendered = "\u{1b}[31mred\u{1b}[0m plain";
    let log = run_cycle(&mut st, &m, rendered, "ts", "addr", OutputMode::All, true).unwrap();
    assert_eq!(log, "red plain\n");
}

#[test]
fn players_entry_has_the_documented_form() {
    let mut st = PollState::new();
    let sample = vec![
        PlayerEntry { name: String::from("alice"), id: String::from("u-1") },
        PlayerEntry { name: String::from("bob"), id: String::from("u-2") },
    ];
    let m0 = java_model(5, 20, None);
    let m1 = ResponseModel::Java(match java_model(6, 20, Some(sample)) {
        ResponseModel::Java(d) => d,
        _ => unreachable!(),
    });
    assert!(run_cycle(&mut st, &m0, "r", "ts0", "host:1", OutputMode::Players, true).is_none());
    let entry = run_cycle(&mut st, &m1, "r", "ts1", "host:1", OutputMode::Players, true).unwrap();
    assert_eq!(
        entry,
        "[ts1] There are now 6/20 players on the server host:1. (Iteration 2)\n  - alice (u-1)\n  - bob (u-2)\n\n"
    );
}

#[test]
fn end_to_end_two_cycle_scenario() {
    // Address 127.0.0.1:25565, Java edition, one change from 5/20 to 6/20
    // in players mode: exactly one log entry, naming iteration 2 and the
    // new counts.
    let config = PollConfig::new(
        String::from("127.0.0.1"),
        25565,
        Edition::Java,
        1,
        10,
        10,
        OutputMode::Players,
        true,
    )
    .unwrap();
    let address = config.address.address();
    assert_eq!(address, "127.0.0.1:25565");
    let mut st = PollState::new();
    let mut entries: Vec<String> = Vec::new();
    for online in [5i64, 6i64] {
        let m = java_model(online, 20, None);
        let lines = mc_poller::render::render_lines(&m, "ts", &address);
        assert!(!lines.is_empty());
        if let Some(e) =
            run_cycle(&mut st, &m, "boxed", "ts", &address, config.mode, config.logging)
        {
            entries.push(e);
        }
    }
    assert_eq!(entries.len(), 1);
    assert!(entries[0].contains("now 6/20 players"));
    assert!(entries[0].contains("(Iteration 2)"));
    assert!(entries[0].contains("127.0.0.1:25565"));
}

#[test]
fn config_rejects_invalid_address_before_any_poll() {
    let err = PollConfig::new(
        String::from("not a host"),
        25565,
        Edition::Bedrock,
        20,
        10,
        10,
        OutputMode::All,
        true,
    )
    .unwrap_err();
    assert_eq!(err, ProtocolError::InvalidAddress);
    let ok = PollConfig::new(
        String::from("example.com"),
        19132,
        Edition::Bedrock,
        20,
        10,
        10,
        OutputMode::All,
        false,
    )
    .unwrap();
    assert_eq!(ok.interval_secs, 20);
    assert_eq!(ok.timeout_secs, 10);
    assert_eq!(ok.max_parallel, 10);
    assert!(!ok.logging);
    let a = ServerAddress::new(String::from("example.com"), 19132).unwrap();
    assert_eq!(a.address(), ok.address.address());
}

#[test]
fn error_messages_are_distinct() {
    let msgs = [
        ProtocolError::InvalidAddress.message(),
        ProtocolError::ConnectionFailure.message(),
        ProtocolError::Timeout.message(),
        ProtocolError::DecodeFailure.message(),
    ];
    for i in 0..msgs.len() {
        for j in 0..msgs.len() {
            if i != j {
                assert_ne!(msgs[i], msgs[j]);
            }
        }
    }
}
