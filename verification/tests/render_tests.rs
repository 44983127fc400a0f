use mc_poller::model::{
    BedrockData, JavaData, ModEntry, PlayerEntry, PluginEntry, ResponseModel,
};
use mc_poller::numfmt::{i64_to_dec, parse_or_zero, u64_to_dec};
use mc_poller::render::render_lines;

#[test]
fn u64_formatting_is_exact() {
    assert_eq!(u64_to_dec(0), "0");
    assert_eq!(u64_to_dec(7), "7");
    assert_eq!(u64_to_dec(10), "10");
    assert_eq!(u64_to_dec(12345), "12345");
    assert_eq!(u64_to_dec(u64::MAX), "18446744073709551615");
}

#[test]
fn i64_formatting_is_exact() {
    assert_eq!(i64_to_dec(0), "0");
    assert_eq!(i64_to_dec(42), "42");
    assert_eq!(i64_to_dec(-5), "-5");
    assert_eq!(i64_to_dec(i64::MIN), "-9223372036854775808");
    assert_eq!(i64_to_dec(i64::MAX), "9223372036854775807");
}

#[test]
fn defensive_parse_matches_the_rule() {
    assert_eq!(parse_or_zero("123"), 123);
    assert_eq!(parse_or_zero("+7"), 7);
    assert_eq!(parse_or_zero("-9"), -9);
    assert_eq!(parse_or_zero("0"), 0);
    assert_eq!(parse_or_zero("9223372036854775807"), i64::MAX);
    assert_eq!(parse_or_zero("-9223372036854775808"), i64::MIN);
    assert_eq!(parse_or_zero("9223372036854775808"), 0);
    assert_eq!(parse_or_zero("-9223372036854775809"), 0);
    assert_eq!(parse_or_zero("99999999999999999999999999"), 0);
    assert_eq!(parse_or_zero(""), 0);
    assert_eq!(parse_or_zero("-"), 0);
    assert_eq!(parse_or_zero("+"), 0);
    assert_eq!(parse_or_zero("12a"), 0);
    assert_eq!(parse_or_zero(" 12"), 0);
    assert_eq!(parse_or_zero("1.5"), 0);
}

#[test]
fn java_render_lines_carry_every_field() {
    let m = ResponseModel::Java(JavaData {
        description: String::from("A server"),
        version_name: String::from("1.21"),
        online: 3,
        max: 20,
        sample: Some(vec![PlayerEntry {
            name: String::from("alice"),
            id: String::from("u-1"),
        }]),
        map: Some(String::from("world")),
        gamemode: Some(String::from("survival")),
        software: Some(String::from("Paper")),
        plugins: Some(vec![
            PluginEntry { name: String::from("Essentials"), version: Some(String::from("2.20")) },
            PluginEntry { name: String::from("Bare"), version: None },
        ]),
        mods: None,
    });
    let lines = render_lines(&m, "2024-01-01 10:00:00", "example.com:25565");
    let expected = vec![
        String::from("[2024-01-01 10:00:00] Pinged server with address example.com:25565."),
        String::from("\nDescription:\nA server"),
        String::from("\nVersion: 1.21"),
        String::from("\nPlayers: 3/20"),
        String::from("  - alice (u-1)"),
        String::from("\nMap Name: world"),
        String::from("\nGame Mode: survival"),
        String::from("\nSoftware: Paper"),
        String::from("\nPlugins: 2"),
        String::from("  - Essentials (2.20)"),
        String::from("  - Bare (unknown)"),
    ];
    assert_eq!(lines, expected);
}

#[test]
fn java_render_omits_absent_fields_and_shows_mods() {
    let m = ResponseModel::Java(JavaData {
        description: String::from("d"),
        version_name: String::from("v"),
        online: 0,
        max: 10,
        sample: None,
        map: None,
        gamemode: None,
        software: None,
        plugins: None,
        mods: Some(vec![ModEntry { modid: String::from("forge"), version: None }]),
    });
    let lines = render_lines(&m, "ts", "h:1");
    let expected = vec![
        String::from("[ts] Pinged server with address h:1."),
        String::from("\nDescription:\nd"),
        String::from("\nVersion: v"),
        String::from("\nPlayers: 0/10"),
        String::from("\nMods: 1"),
        String::from("  - forge (unknown)"),
    ];
    assert_eq!(lines, expected);
}

#[test]
fn bedrock_render_lines_carry_every_field() {
    let m = ResponseModel::Bedrock(BedrockData {
        edition: String::from("MCPE"),
        motd: String::from("My Server"),
        motd2: String::from("second"),
        protocol_version: 748,
        version: String::from("1.21.0"),
        online: 12,
        max: 100,
        server_uid: String::from("uid-1"),
        game_mode: String::from("Survival"),
        game_mode_numeric: 1,
        port_ipv4: 19132,
        port_ipv6: 19133,
        map: Some(String::from("overworld")),
        software: None,
    });
    let lines = render_lines(&m, "ts", "h:19132");
    let expected = vec![
        String::from("[ts] Pinged server with address h:19132."),
        String::from("\nEdition: MCPE"),
        String::from("\nMOTD:\nMy Server"),
        String::from("\nSecondary MOTD:\nsecond"),
        String::from("\nProtocol Version: 748"),
        String::from("\nVersion: 1.21.0"),
        String::from("\nPlayers: 12/100"),
        String::from("\nServer UID: uid-1"),
        String::from("\nGame Mode: Survival (1)"),
        String::from("\nIPv4 Port: 19132"),
        String::from("\nIPv6 Port: 19133"),
        String::from("\nMap Name: overworld"),
    ];
    assert_eq!(lines, expected);
}
