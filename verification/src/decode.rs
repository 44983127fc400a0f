//! Decoding the two wire replies into the response model.
//!
//! The Bedrock reply is a single semicolon-delimited record in a fixed
//! field order.  The mandatory prefix runs through the secondary MOTD; a
//! trailing software field is optional, and a reply that is missing any
//! mandatory field is rejected.

use vstd::prelude::*;
use vstd::string::*;

use crate::error::ProtocolError;
use crate::json::JsonNode;
use crate::json::json_node_of;
use crate::json::lookup;
use crate::json::obj_get;
use crate::json::parse_json;
use crate::model::BedrockData;
use crate::model::BedrockDataView;
use crate::model::JavaData;
use crate::model::JavaDataView;
use crate::model::ModEntry;
use crate::model::ModEntryView;
use crate::model::PlayerEntry;
use crate::model::PlayerEntryView;
use crate::model::PluginEntry;
use crate::model::PluginEntryView;
use crate::numfmt::parse_i64_or_zero;
use crate::numfmt::parse_or_zero;
use crate::textsplit::split_on;
use crate::textsplit::split_str;

verus! {

/// How many leading fields a Bedrock reply must carry.
pub open spec fn bedrock_mandatory_fields() -> int {
    13
}

/// What decoding a Bedrock reply yields: `None` when a mandatory field is
/// missing, otherwise the model, with numeric fields parsed defensively
/// (zero where the text is not a number) and the software field absent
/// when the reply was truncated after the mandatory prefix.
pub open spec fn decode_bedrock_spec(s: Seq<char>) -> Option<BedrockDataView> {
    let parts = split_on(s, ';');
    if parts.len() < bedrock_mandatory_fields() {
        None
    } else {
        Some(
            BedrockDataView {
                edition: parts[0],
                motd: parts[1],
                protocol_version: parse_i64_or_zero(parts[2]) as i64,
                version: parts[3],
                online: parse_i64_or_zero(parts[4]) as i64,
                max: parse_i64_or_zero(parts[5]) as i64,
                server_uid: parts[6],
                map: Some(parts[7]),
                game_mode: parts[8],
                game_mode_numeric: parse_i64_or_zero(parts[9]) as i64,
                port_ipv4: parse_i64_or_zero(parts[10]) as i64,
                port_ipv6: parse_i64_or_zero(parts[11]) as i64,
                motd2: parts[12],
                software: if parts.len() >= 14 {
                    Some(parts[13])
                } else {
                    None
                },
            },
        )
    }
}

/// Decode a Bedrock status reply.
///
/// Succeeds exactly when every mandatory field is present; a shorter reply
/// is a `DecodeFailure`.  A reply that stops after the mandatory prefix
/// decodes with the software field absent.
pub fn decode_bedrock_reply(reply: &str) -> (r: Result<BedrockData, ProtocolError>)
    ensures
        match r {
            Ok(d) => decode_bedrock_spec(reply@) == Some(d@),
            Err(e) => e == ProtocolError::DecodeFailure && decode_bedrock_spec(reply@) is None,
        },
        r is Ok <==> split_on(reply@, ';').len() >= bedrock_mandatory_fields(),
{
    let parts = split_str(reply, ';');
    if parts.len() < 13 {
        return Err(ProtocolError::DecodeFailure);
    }
    let software = if parts.len() >= 14 {
        Some(parts[13].clone())
    } else {
        None
    };
    let d = BedrockData {
        edition: parts[0].clone(),
        motd: parts[1].clone(),
        protocol_version: parse_or_zero(parts[2].as_str()),
        version: parts[3].clone(),
        online: parse_or_zero(parts[4].as_str()),
        max: parse_or_zero(parts[5].as_str()),
        server_uid: parts[6].clone(),
        map: Some(parts[7].clone()),
        game_mode: parts[8].clone(),
        game_mode_numeric: parse_or_zero(parts[9].as_str()),
        port_ipv4: parse_or_zero(parts[10].as_str()),
        port_ipv6: parse_or_zero(parts[11].as_str()),
        motd2: parts[12].clone(),
        software,
    };
    proof {
        assert(decode_bedrock_spec(reply@) == Some(d@));
    }
    Ok(d)
}

/// One entry of the player sample: an object with string `name` and `id`.
pub open spec fn player_of(n: JsonNode) -> Option<PlayerEntryView> {
    match n {
        JsonNode::Obj(fs) => match (lookup(fs@, "name"@), lookup(fs@, "id"@)) {
            (Some(JsonNode::Str(nm)), Some(JsonNode::Str(id))) => Some(
                PlayerEntryView { name: nm@, id: id@ },
            ),
            _ => None,
        },
        _ => None,
    }
}

/// One entry of the plugin list: an object with a string `name` and an
/// optional string `version` (absent or null means no version).
pub open spec fn plugin_of(n: JsonNode) -> Option<PluginEntryView> {
    match n {
        JsonNode::Obj(fs) => match lookup(fs@, "name"@) {
            Some(JsonNode::Str(nm)) => match lookup(fs@, "version"@) {
                None => Some(PluginEntryView { name: nm@, version: None }),
                Some(JsonNode::Null) => Some(PluginEntryView { name: nm@, version: None }),
                Some(JsonNode::Str(v)) => Some(PluginEntryView { name: nm@, version: Some(v@) }),
                Some(_) => None,
            },
            _ => None,
        },
        _ => None,
    }
}

/// One entry of the mod list: an object with a string `modid` and an
/// optional string `version` (absent or null means no version).
pub open spec fn mod_of(n: JsonNode) -> Option<ModEntryView> {
    match n {
        JsonNode::Obj(fs) => match lookup(fs@, "modid"@) {
            Some(JsonNode::Str(id)) => match lookup(fs@, "version"@) {
                None => Some(ModEntryView { modid: id@, version: None }),
                Some(JsonNode::Null) => Some(ModEntryView { modid: id@, version: None }),
                Some(JsonNode::Str(v)) => Some(ModEntryView { modid: id@, version: Some(v@) }),
                Some(_) => None,
            },
            _ => None,
        },
        _ => None,
    }
}

pub open spec fn players_ok(elems: Seq<JsonNode>) -> bool {
    forall|i: int| 0 <= i < elems.len() ==> player_of(#[trigger] elems[i]) is Some
}

pub open spec fn players_views(elems: Seq<JsonNode>) -> Seq<PlayerEntryView> {
    Seq::new(elems.len(), |i: int| player_of(elems[i])->Some_0)
}

pub open spec fn plugins_ok(elems: Seq<JsonNode>) -> bool {
    forall|i: int| 0 <= i < elems.len() ==> plugin_of(#[trigger] elems[i]) is Some
}

pub open spec fn plugins_views(elems: Seq<JsonNode>) -> Seq<PluginEntryView> {
    Seq::new(elems.len(), |i: int| plugin_of(elems[i])->Some_0)
}

pub open spec fn mods_ok(elems: Seq<JsonNode>) -> bool {
    forall|i: int| 0 <= i < elems.len() ==> mod_of(#[trigger] elems[i]) is Some
}

pub open spec fn mods_views(elems: Seq<JsonNode>) -> Seq<ModEntryView> {
    Seq::new(elems.len(), |i: int| mod_of(elems[i])->Some_0)
}

/// An optional string field of an object: absent or null is a genuine
/// absence, a string is a value, and any other shape is malformed.
pub open spec fn opt_str_field(fs: Seq<(String, JsonNode)>, key: Seq<char>) -> Option<
    Option<Seq<char>>,
> {
    match lookup(fs, key) {
        None => Some(None),
        Some(JsonNode::Null) => Some(None),
        Some(JsonNode::Str(s)) => Some(Some(s@)),
        Some(_) => None,
    }
}

/// The version name: under `version`, an object with a string `name`.
pub open spec fn version_name_of(fs: Seq<(String, JsonNode)>) -> Option<Seq<char>> {
    match lookup(fs, "version"@) {
        Some(JsonNode::Obj(vf)) => match lookup(vf@, "name"@) {
            Some(JsonNode::Str(s)) => Some(s@),
            _ => None,
        },
        _ => None,
    }
}

/// The players object: mandatory integer `online` and `max`, and an
/// optional `sample` array of player entries.
pub open spec fn players_of(fs: Seq<(String, JsonNode)>) -> Option<
    (i64, i64, Option<Seq<PlayerEntryView>>),
> {
    match lookup(fs, "players"@) {
        Some(JsonNode::Obj(pf)) => match (lookup(pf@, "online"@), lookup(pf@, "max"@)) {
            (Some(JsonNode::Num(o)), Some(JsonNode::Num(m))) => match lookup(pf@, "sample"@) {
                None => Some((o, m, None)),
                Some(JsonNode::Null) => Some((o, m, None)),
                Some(JsonNode::Arr(a)) => if players_ok(a@) {
                    Some((o, m, Some(players_views(a@))))
                } else {
                    None
                },
                Some(_) => None,
            },
            _ => None,
        },
        _ => None,
    }
}

/// The plugin list, when present: under `plugins`, an array of plugin
/// entries; absent or null means no list was reported.
pub open spec fn plugins_field(fs: Seq<(String, JsonNode)>) -> Option<
    Option<Seq<PluginEntryView>>,
> {
    match lookup(fs, "plugins"@) {
        None => Some(None),
        Some(JsonNode::Null) => Some(None),
        Some(JsonNode::Arr(a)) => if plugins_ok(a@) {
            Some(Some(plugins_views(a@)))
        } else {
            None
        },
        Some(_) => None,
    }
}

/// The mod list, when present: under `mods`, an array of mod entries;
/// absent or null means no list was reported.
pub open spec fn mods_field(fs: Seq<(String, JsonNode)>) -> Option<Option<Seq<ModEntryView>>> {
    match lookup(fs, "mods"@) {
        None => Some(None),
        Some(JsonNode::Null) => Some(None),
        Some(JsonNode::Arr(a)) => if mods_ok(a@) {
            Some(Some(mods_views(a@)))
        } else {
            None
        },
        Some(_) => None,
    }
}

/// What decoding a parsed Java payload yields: `None` where a mandatory
/// field is missing or any present field has the wrong shape; otherwise
/// the model, with absent optional fields genuinely absent.
pub open spec fn java_of_node_spec(n: JsonNode) -> Option<JavaDataView> {
    match n {
        JsonNode::Obj(fs) => {
            let f = fs@;
            match lookup(f, "description"@) {
                Some(JsonNode::Str(desc)) => match version_name_of(f) {
                    Some(vname) => match players_of(f) {
                        Some((online, max, sample)) => match (
                            opt_str_field(f, "map"@),
                            opt_str_field(f, "gamemode"@),
                            opt_str_field(f, "software"@),
                        ) {
                            (Some(map), Some(gamemode), Some(software)) => match (
                                plugins_field(f),
                                mods_field(f),
                            ) {
                                (Some(plugins), Some(mods)) => Some(
                                    JavaDataView {
                                        description: desc@,
                                        version_name: vname,
                                        online,
                                        max,
                                        sample,
                                        map,
                                        gamemode,
                                        software,
                                        plugins,
                                        mods,
                                    },
                                ),
                                _ => None,
                            },
                            _ => None,
                        },
                        None => None,
                    },
                    None => None,
                },
                _ => None,
            }
        },
        _ => None,
    }
}

fn player_entry(n: &JsonNode) -> (r: Option<PlayerEntry>)
    ensures
        match r {
            Some(p) => player_of(*n) == Some(p@),
            None => player_of(*n) is None,
        },
{
    match n {
        JsonNode::Obj(fs) => match (obj_get(fs, "name"), obj_get(fs, "id")) {
            (Some(JsonNode::Str(nm)), Some(JsonNode::Str(id))) => Some(
                PlayerEntry { name: nm.clone(), id: id.clone() },
            ),
            _ => None,
        },
        _ => None,
    }
}

fn plugin_entry(n: &JsonNode) -> (r: Option<PluginEntry>)
    ensures
        match r {
            Some(p) => plugin_of(*n) == Some(p@),
            None => plugin_of(*n) is None,
        },
{
    match n {
        JsonNode::Obj(fs) => match obj_get(fs, "name") {
            Some(JsonNode::Str(nm)) => match obj_get(fs, "version") {
                None => Some(PluginEntry { name: nm.clone(), version: None }),
                Some(JsonNode::Null) => Some(PluginEntry { name: nm.clone(), version: None }),
                Some(JsonNode::Str(v)) => Some(
                    PluginEntry { name: nm.clone(), version: Some(v.clone()) },
                ),
                Some(_) => None,
            },
            _ => None,
        },
        _ => None,
    }
}

fn mod_entry(n: &JsonNode) -> (r: Option<ModEntry>)
    ensures
        match r {
            Some(p) => mod_of(*n) == Some(p@),
            None => mod_of(*n) is None,
        },
{
    match n {
        JsonNode::Obj(fs) => match obj_get(fs, "modid") {
            Some(JsonNode::Str(id)) => match obj_get(fs, "version") {
                None => Some(ModEntry { modid: id.clone(), version: None }),
                Some(JsonNode::Null) => Some(ModEntry { modid: id.clone(), version: None }),
                Some(JsonNode::Str(v)) => Some(
                    ModEntry { modid: id.clone(), version: Some(v.clone()) },
                ),
                Some(_) => None,
            },
            _ => None,
        },
        _ => None,
    }
}

fn players_vec(a: &Vec<JsonNode>) -> (r: Option<Vec<PlayerEntry>>)
    ensures
        match r {
            Some(v) => players_ok(a@) && v.deep_view() == players_views(a@),
            None => !players_ok(a@),
        },
{
    let mut out: Vec<PlayerEntry> = Vec::new();
    let mut i: usize = 0;
    while i < a.len()
        invariant
            i <= a@.len(),
            out@.len() == i,
            forall|j: int| 0 <= j < i ==> player_of(#[trigger] a@[j]) is Some,
            forall|j: int| 0 <= j < i ==> out.deep_view()[j] == player_of(a@[j])->Some_0,
        decreases a@.len() - i,
    {
        match player_entry(&a[i]) {
            Some(p) => {
                let ghost pre = out.deep_view();
                out.push(p);
                proof {
                    assert forall|j: int|
                        0 <= j < i + 1 implies out.deep_view()[j] == player_of(a@[j])->Some_0 by {
                        if j < i {
                            assert(out@[j] == out@.subrange(0, i as int)[j]);
                            assert(out.deep_view()[j] == pre[j]);
                        } else {
                            assert(out@[j] == p);
                        }
                    }
                }
            },
            None => {
                return None;
            },
        }
        i += 1;
    }
    proof {
        assert(out.deep_view() =~= players_views(a@));
    }
    Some(out)
}

fn plugins_vec(a: &Vec<JsonNode>) -> (r: Option<Vec<PluginEntry>>)
    ensures
        match r {
            Some(v) => plugins_ok(a@) && v.deep_view() == plugins_views(a@),
            None => !plugins_ok(a@),
        },
{
    let mut out: Vec<PluginEntry> = Vec::new();
    let mut i: usize = 0;
    while i < a.len()
        invariant
            i <= a@.len(),
            out@.len() == i,
            forall|j: int| 0 <= j < i ==> plugin_of(#[trigger] a@[j]) is Some,
            forall|j: int| 0 <= j < i ==> out.deep_view()[j] == plugin_of(a@[j])->Some_0,
        decreases a@.len() - i,
    {
        match plugin_entry(&a[i]) {
            Some(p) => {
                let ghost pre = out.deep_view();
                out.push(p);
                proof {
                    assert forall|j: int|
                        0 <= j < i + 1 implies out.deep_view()[j] == plugin_of(a@[j])->Some_0 by {
                        if j < i {
                            assert(out@[j] == out@.subrange(0, i as int)[j]);
                            assert(out.deep_view()[j] == pre[j]);
                        } else {
                            assert(out@[j] == p);
                        }
                    }
                }
            },
            None => {
                return None;
            },
        }
        i += 1;
    }
    proof {
        assert(out.deep_view() =~= plugins_views(a@));
    }
    Some(out)
}

fn mods_vec(a: &Vec<JsonNode>) -> (r: Option<Vec<ModEntry>>)
    ensures
        match r {
            Some(v) => mods_ok(a@) && v.deep_view() == mods_views(a@),
            None => !mods_ok(a@),
        },
{
    let mut out: Vec<ModEntry> = Vec::new();
    let mut i: usize = 0;
    while i < a.len()
        invariant
            i <= a@.len(),
            out@.len() == i,
            forall|j: int| 0 <= j < i ==> mod_of(#[trigger] a@[j]) is Some,
            forall|j: int| 0 <= j < i ==> out.deep_view()[j] == mod_of(a@[j])->Some_0,
        decreases a@.len() - i,
    {
        match mod_entry(&a[i]) {
            Some(p) => {
                let ghost pre = out.deep_view();
                out.push(p);
                proof {
                    assert forall|j: int|
                        0 <= j < i + 1 implies out.deep_view()[j] == mod_of(a@[j])->Some_0 by {
                        if j < i {
                            assert(out@[j] == out@.subrange(0, i as int)[j]);
                            assert(out.deep_view()[j] == pre[j]);
                        } else {
                            assert(out@[j] == p);
                        }
                    }
                }
            },
            None => {
                return None;
            },
        }
        i += 1;
    }
    proof {
        assert(out.deep_view() =~= mods_views(a@));
    }
    Some(out)
}

/// Build the Java model from a parsed JSON tree.
///
/// Succeeds exactly where the tree has the expected shape: a mandatory
/// string description, version name and integer player counts, and every
/// optional field either absent, null, or of its expected shape.
pub fn java_from_node(n: &JsonNode) -> (r: Result<JavaData, ProtocolError>)
    ensures
        match r {
            Ok(d) => java_of_node_spec(*n) == Some(d@),
            Err(e) => e == ProtocolError::DecodeFailure && java_of_node_spec(*n) is None,
        },
{
    let fs = match n {
        JsonNode::Obj(fs) => fs,
        _ => {
            return Err(ProtocolError::DecodeFailure);
        },
    };
    let description = match obj_get(fs, "description") {
        Some(JsonNode::Str(s)) => s.clone(),
        _ => {
            return Err(ProtocolError::DecodeFailure);
        },
    };
    let version_name = match obj_get(fs, "version") {
        Some(JsonNode::Obj(vf)) => match obj_get(vf, "name") {
            Some(JsonNode::Str(s)) => s.clone(),
            _ => {
                return Err(ProtocolError::DecodeFailure);
            },
        },
        _ => {
            return Err(ProtocolError::DecodeFailure);
        },
    };
    let pf = match obj_get(fs, "players") {
        Some(JsonNode::Obj(pf)) => pf,
        _ => {
            return Err(ProtocolError::DecodeFailure);
        },
    };
    let online = match obj_get(pf, "online") {
        Some(JsonNode::Num(o)) => *o,
        _ => {
            return Err(ProtocolError::DecodeFailure);
        },
    };
    let max = match obj_get(pf, "max") {
        Some(JsonNode::Num(m)) => *m,
        _ => {
            return Err(ProtocolError::DecodeFailure);
        },
    };
    let sample = match obj_get(pf, "sample") {
        None => None,
        Some(JsonNode::Null) => None,
        Some(JsonNode::Arr(a)) => match players_vec(a) {
            Some(v) => Some(v),
            None => {
                return Err(ProtocolError::DecodeFailure);
            },
        },
        Some(_) => {
            return Err(ProtocolError::DecodeFailure);
        },
    };
    let map = match obj_get(fs, "map") {
        None => None,
        Some(JsonNode::Null) => None,
        Some(JsonNode::Str(s)) => Some(s.clone()),
        Some(_) => {
            return Err(ProtocolError::DecodeFailure);
        },
    };
    let gamemode = match obj_get(fs, "gamemode") {
        None => None,
        Some(JsonNode::Null) => None,
        Some(JsonNode::Str(s)) => Some(s.clone()),
        Some(_) => {
            return Err(ProtocolError::DecodeFailure);
        },
    };
    let software = match obj_get(fs, "software") {
        None => None,
        Some(JsonNode::Null) => None,
        Some(JsonNode::Str(s)) => Some(s.clone()),
        Some(_) => {
            return Err(ProtocolError::DecodeFailure);
        },
    };
    let plugins = match obj_get(fs, "plugins") {
        None => None,
        Some(JsonNode::Null) => None,
        Some(JsonNode::Arr(a)) => match plugins_vec(a) {
            Some(v) => Some(v),
            None => {
                return Err(ProtocolError::DecodeFailure);
            },
        },
        Some(_) => {
            return Err(ProtocolError::DecodeFailure);
        },
    };
    let mods = match obj_get(fs, "mods") {
        None => None,
        Some(JsonNode::Null) => None,
        Some(JsonNode::Arr(a)) => match mods_vec(a) {
            Some(v) => Some(v),
            None => {
                return Err(ProtocolError::DecodeFailure);
            },
        },
        Some(_) => {
            return Err(ProtocolError::DecodeFailure);
        },
    };
    let d = JavaData {
        description,
        version_name,
        online,
        max,
        sample,
        map,
        gamemode,
        software,
        plugins,
        mods,
    };
    proof {
        assert(java_of_node_spec(*n) == Some(d@));
    }
    Ok(d)
}

/// Decode a Java status payload from its JSON text.
///
/// The parse itself is serde_json's; everything after it is decided by
/// [`java_from_node`].  Fails exactly where the text is not well-formed
/// JSON or the tree does not have the expected shape.
pub fn decode_java_status(payload: &str) -> (r: Result<JavaData, ProtocolError>)
    ensures
        match r {
            Ok(d) => json_node_of(payload@) is Some && java_of_node_spec(
                json_node_of(payload@)->Some_0,
            ) == Some(d@),
            Err(e) => e == ProtocolError::DecodeFailure && (json_node_of(payload@) is None
                || java_of_node_spec(json_node_of(payload@)->Some_0) is None),
        },
{
    match parse_json(payload) {
        None => Err(ProtocolError::DecodeFailure),
        Some(node) => java_from_node(&node),
    }
}

} // verus!
