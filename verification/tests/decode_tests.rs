use mc_poller::decode::{decode_bedrock_reply, decode_java_status};
use mc_poller::error::ProtocolError;

fn full_java_payload() -> String {
    String::from("{\"description\":\"A Minecraft Server\",\"version\":{\"name\":\"1.21.4\",\"protocol\":769},\"players\":{\"online\":5,\"max\":20,\"sample\":[{\"name\":\"alice\",\"id\":\"u-1\"},{\"name\":\"bob\",\"id\":\"u-2\"}]},\"map\":\"world\",\"gamemode\":\"survival\",\"software\":\"Paper\",\"plugins\":[{\"name\":\"Essentials\",\"version\":\"2.20\"},{\"name\":\"Bare\"}]}")
}

#[test]
fn java_full_payload_round_trips() {
    let d = decode_java_status(&full_java_payload()).unwrap();
    assert_eq!(d.description, "A Minecraft Server");
    assert_eq!(d.version_name, "1.21.4");
    assert_eq!(d.online, 5);
    assert_eq!(d.max, 20);
    let sample = d.sample.unwrap();
    assert_eq!(sample.len(), 2);
    assert_eq!(sample[0].name, "alice");
    assert_eq!(sample[0].id, "u-1");
    assert_eq!(sample[1].name, "bob");
    assert_eq!(sample[1].id, "u-2");
    assert_eq!(d.map.unwrap(), "world");
    assert_eq!(d.gamemode.unwrap(), "survival");
    assert_eq!(d.software.unwrap(), "Paper");
    let plugins = d.plugins.unwrap();
    assert_eq!(plugins.len(), 2);
    assert_eq!(plugins[0].name, "Essentials");
    assert_eq!(plugins[0].version.as_deref(), Some("2.20"));
    assert_eq!(plugins[1].name, "Bare");
    assert_eq!(plugins[1].version, None);
    assert!(d.mods.is_none());
}

#[test]
fn java_mods_payload_round_trips() {
    let payload = "{\"description\":\"modded\",\"version\":{\"name\":\"1.12.2\"},\"players\":{\"online\":1,\"max\":10},\"mods\":[{\"modid\":\"forge\",\"version\":\"14.23\"},{\"modid\":\"bare\"}]}";
    let d = decode_java_status(payload).unwrap();
    let mods = d.mods.unwrap();
    assert_eq!(mods.len(), 2);
    assert_eq!(mods[0].modid, "forge");
    assert_eq!(mods[0].version.as_deref(), Some("14.23"));
    assert_eq!(mods[1].modid, "bare");
    assert_eq!(mods[1].version, None);
    assert!(d.plugins.is_none());
}

#[test]
fn java_each_optional_field_may_be_absent() {
    // The minimal payload: only the mandatory fields.
    let minimal = "{\"description\":\"d\",\"version\":{\"name\":\"v\"},\"players\":{\"online\":0,\"max\":0}}";
    let d = decode_java_status(minimal).unwrap();
    assert!(d.sample.is_none());
    assert!(d.map.is_none());
    assert!(d.gamemode.is_none());
    assert!(d.software.is_none());
    assert!(d.plugins.is_none());
    assert!(d.mods.is_none());
    // Absent stays absent even when the others are present.
    let no_map = "{\"description\":\"d\",\"version\":{\"name\":\"v\"},\"players\":{\"online\":1,\"max\":2,\"sample\":[]},\"gamemode\":\"creative\",\"software\":\"s\"}";
    let d = decode_java_status(no_map).unwrap();
    assert!(d.map.is_none());
    assert_eq!(d.sample.unwrap().len(), 0);
    assert_eq!(d.gamemode.as_deref(), Some("creative"));
}

#[test]
fn java_null_optionals_read_as_absent() {
    let payload = "{\"description\":\"d\",\"version\":{\"name\":\"v\"},\"players\":{\"online\":1,\"max\":2,\"sample\":null},\"map\":null,\"software\":null}";
    let d = decode_java_status(payload).unwrap();
    assert!(d.sample.is_none());
    assert!(d.map.is_none());
    assert!(d.software.is_none());
}

#[test]
fn java_missing_mandatory_fields_fail() {
    let no_description =
        "{\"version\":{\"name\":\"v\"},\"players\":{\"online\":1,\"max\":2}}";
    assert_eq!(decode_java_status(no_description).unwrap_err(), ProtocolError::DecodeFailure);
    let no_version = "{\"description\":\"d\",\"players\":{\"online\":1,\"max\":2}}";
    assert_eq!(decode_java_status(no_version).unwrap_err(), ProtocolError::DecodeFailure);
    let no_players = "{\"description\":\"d\",\"version\":{\"name\":\"v\"}}";
    assert_eq!(decode_java_status(no_players).unwrap_err(), ProtocolError::DecodeFailure);
    let bad_online = "{\"description\":\"d\",\"version\":{\"name\":\"v\"},\"players\":{\"online\":\"five\",\"max\":2}}";
    assert_eq!(decode_java_status(bad_online).unwrap_err(), ProtocolError::DecodeFailure);
}

#[test]
fn java_malformed_text_fails() {
    assert_eq!(decode_java_status("not json").unwrap_err(), ProtocolError::DecodeFailure);
    assert_eq!(decode_java_status("").unwrap_err(), ProtocolError::DecodeFailure);
    assert_eq!(decode_java_status("[1,2,3]").unwrap_err(), ProtocolError::DecodeFailure);
}

#[test]
fn bedrock_mandatory_reply_decodes_without_software() {
    let reply = "MCPE;My Server;748;1.21.0;12;100;12345678901234567;world one;Survival;1;19132;19133;second line";
    let d = decode_bedrock_reply(reply).unwrap();
    assert_eq!(d.edition, "MCPE");
    assert_eq!(d.motd, "My Server");
    assert_eq!(d.protocol_version, 748);
    assert_eq!(d.version, "1.21.0");
    assert_eq!(d.online, 12);
    assert_eq!(d.max, 100);
    assert_eq!(d.server_uid, "12345678901234567");
    assert_eq!(d.map.as_deref(), Some("world one"));
    assert_eq!(d.game_mode, "Survival");
    assert_eq!(d.game_mode_numeric, 1);
    assert_eq!(d.port_ipv4, 19132);
    assert_eq!(d.port_ipv6, 19133);
    assert_eq!(d.motd2, "second line");
    assert!(d.software.is_none());
}

#[test]
fn bedrock_trailing_software_is_kept() {
    let reply = "MCPE;m;1;v;0;10;uid;map;Creative;2;1;2;m2;CustomSoft";
    let d = decode_bedrock_reply(reply).unwrap();
    assert_eq!(d.software.as_deref(), Some("CustomSoft"));
    // Anything past the software field is ignored.
    let longer = "MCPE;m;1;v;0;10;uid;map;Creative;2;1;2;m2;CustomSoft;extra;junk";
    let d = decode_bedrock_reply(longer).unwrap();
    assert_eq!(d.software.as_deref(), Some("CustomSoft"));
}

#[test]
fn bedrock_missing_mandatory_field_fails() {
    // Twelve fields: the server_uid (or any one field) is missing.
    let reply = "MCPE;m;1;v;0;10;map;Creative;2;1;2;m2";
    assert_eq!(decode_bedrock_reply(reply).unwrap_err(), ProtocolError::DecodeFailure);
    assert_eq!(decode_bedrock_reply("").unwrap_err(), ProtocolError::DecodeFailure);
    assert_eq!(decode_bedrock_reply("MCPE").unwrap_err(), ProtocolError::DecodeFailure);
}

#[test]
fn bedrock_empty_trailing_field_is_present_but_empty() {
    // A trailing semicolon makes a fourteenth, empty field: software was
    // reported as empty, which is not the same as absent.
    let reply = "MCPE;m;1;v;0;10;uid;map;c;0;1;2;m2;";
    let d = decode_bedrock_reply(reply).unwrap();
    assert_eq!(d.software.as_deref(), Some(""));
}

#[test]
fn bedrock_empty_fields_still_count() {
    // Thirteen empty fields are still thirteen fields.
    let reply = ";;;;;;;;;;;;";
    let d = decode_bedrock_reply(reply).unwrap();
    assert_eq!(d.edition, "");
    assert_eq!(d.online, 0);
    assert!(d.software.is_none());
}

#[test]
fn bedrock_non_numeric_counts_decode_to_zero() {
    let reply = "MCPE;m;seven;v;lots;unlimited;uid;map;Creative;x;p4;p6;m2";
    let d = decode_bedrock_reply(reply).unwrap();
    assert_eq!(d.protocol_version, 0);
    assert_eq!(d.online, 0);
    assert_eq!(d.max, 0);
    assert_eq!(d.game_mode_numeric, 0);
    assert_eq!(d.port_ipv4, 0);
    assert_eq!(d.port_ipv6, 0);
}

#[test]
fn bedrock_negative_and_overflowing_counts() {
    let reply = "MCPE;m;1;v;-3;99999999999999999999;uid;map;c;0;1;2;m2";
    let d = decode_bedrock_reply(reply).unwrap();
    assert_eq!(d.online, -3);
    assert_eq!(d.max, 0);
}
