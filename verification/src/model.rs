//! The normalized, edition-tagged representation of one poll's data.

use vstd::prelude::*;

verus! {

/// Which wire protocol the target server speaks.
#[derive(Clone, Copy, Debug, PartialEq, Eq, Structural)]
pub enum Edition {
    /// Byte-stream connection with a JSON status payload.
    Java,
    /// Datagram exchange with a semicolon-delimited text reply.
    Bedrock,
}

/// One entry of the sample of currently connected players.
#[derive(Clone, Debug)]
pub struct PlayerEntry {
    pub name: String,
    pub id: String,
}

pub ghost struct PlayerEntryView {
    pub name: Seq<char>,
    pub id: Seq<char>,
}

impl View for PlayerEntry {
    type V = PlayerEntryView;

    open spec fn view(&self) -> PlayerEntryView {
        PlayerEntryView { name: self.name@, id: self.id@ }
    }
}


impl DeepView for PlayerEntry {
    type V = PlayerEntryView;

    open spec fn deep_view(&self) -> PlayerEntryView {
        self.view()
    }
}

/// One entry of the plugin list some Java servers report.
#[derive(Clone, Debug)]
pub struct PluginEntry {
    pub name: String,
    pub version: Option<String>,
}

pub ghost struct PluginEntryView {
    pub name: Seq<char>,
    pub version: Option<Seq<char>>,
}

impl View for PluginEntry {
    type V = PluginEntryView;

    open spec fn view(&self) -> PluginEntryView {
        PluginEntryView {
            name: self.name@,
            version: match self.version {
                Some(v) => Some(v@),
                None => None,
            },
        }
    }
}


impl DeepView for PluginEntry {
    type V = PluginEntryView;

    open spec fn deep_view(&self) -> PluginEntryView {
        self.view()
    }
}

/// One entry of the mod list some Java servers report.
#[derive(Clone, Debug)]
pub struct ModEntry {
    pub modid: String,
    pub version: Option<String>,
}

pub ghost struct ModEntryView {
    pub modid: Seq<char>,
    pub version: Option<Seq<char>>,
}

impl View for ModEntry {
    type V = ModEntryView;

    open spec fn view(&self) -> ModEntryView {
        ModEntryView {
            modid: self.modid@,
            version: match self.version {
                Some(v) => Some(v@),
                None => None,
            },
        }
    }
}


impl DeepView for ModEntry {
    type V = ModEntryView;

    open spec fn deep_view(&self) -> ModEntryView {
        self.view()
    }
}

pub open spec fn view_opt_str(o: Option<String>) -> Option<Seq<char>> {
    match o {
        Some(s) => Some(s@),
        None => None,
    }
}

/// The Java payload: description, version and player counts, plus the
/// optional fields a server may or may not report.  An optional field that
/// the server did not send is `None`, never an empty placeholder.
#[derive(Clone, Debug)]
pub struct JavaData {
    pub description: String,
    pub version_name: String,
    pub online: i64,
    pub max: i64,
    pub sample: Option<Vec<PlayerEntry>>,
    pub map: Option<String>,
    pub gamemode: Option<String>,
    pub software: Option<String>,
    pub plugins: Option<Vec<PluginEntry>>,
    pub mods: Option<Vec<ModEntry>>,
}

pub ghost struct JavaDataView {
    pub description: Seq<char>,
    pub version_name: Seq<char>,
    pub online: i64,
    pub max: i64,
    pub sample: Option<Seq<PlayerEntryView>>,
    pub map: Option<Seq<char>>,
    pub gamemode: Option<Seq<char>>,
    pub software: Option<Seq<char>>,
    pub plugins: Option<Seq<PluginEntryView>>,
    pub mods: Option<Seq<ModEntryView>>,
}

impl View for JavaData {
    type V = JavaDataView;

    open spec fn view(&self) -> JavaDataView {
        JavaDataView {
            description: self.description@,
            version_name: self.version_name@,
            online: self.online,
            max: self.max,
            sample: match self.sample {
                Some(v) => Some(v.deep_view()),
                None => None,
            },
            map: view_opt_str(self.map),
            gamemode: view_opt_str(self.gamemode),
            software: view_opt_str(self.software),
            plugins: match self.plugins {
                Some(v) => Some(v.deep_view()),
                None => None,
            },
            mods: match self.mods {
                Some(v) => Some(v.deep_view()),
                None => None,
            },
        }
    }
}

/// The Bedrock payload.  The numeric fields travel as text on the wire and
/// are parsed defensively at decode time: a field that does not parse is
/// zero here.
#[derive(Clone, Debug)]
pub struct BedrockData {
    pub edition: String,
    pub motd: String,
    pub motd2: String,
    pub protocol_version: i64,
    pub version: String,
    pub online: i64,
    pub max: i64,
    pub server_uid: String,
    pub game_mode: String,
    pub game_mode_numeric: i64,
    pub port_ipv4: i64,
    pub port_ipv6: i64,
    pub map: Option<String>,
    pub software: Option<String>,
}

pub ghost struct BedrockDataView {
    pub edition: Seq<char>,
    pub motd: Seq<char>,
    pub motd2: Seq<char>,
    pub protocol_version: i64,
    pub version: Seq<char>,
    pub online: i64,
    pub max: i64,
    pub server_uid: Seq<char>,
    pub game_mode: Seq<char>,
    pub game_mode_numeric: i64,
    pub port_ipv4: i64,
    pub port_ipv6: i64,
    pub map: Option<Seq<char>>,
    pub software: Option<Seq<char>>,
}

impl View for BedrockData {
    type V = BedrockDataView;

    open spec fn view(&self) -> BedrockDataView {
        BedrockDataView {
            edition: self.edition@,
            motd: self.motd@,
            motd2: self.motd2@,
            protocol_version: self.protocol_version,
            version: self.version@,
            online: self.online,
            max: self.max,
            server_uid: self.server_uid@,
            game_mode: self.game_mode@,
            game_mode_numeric: self.game_mode_numeric,
            port_ipv4: self.port_ipv4,
            port_ipv6: self.port_ipv6,
            map: view_opt_str(self.map),
            software: view_opt_str(self.software),
        }
    }
}

/// A single poll's data: exactly one payload variant is populated, matching
/// the edition the poll was made with.
#[derive(Clone, Debug)]
pub enum ResponseModel {
    Java(JavaData),
    Bedrock(BedrockData),
}

pub ghost enum ResponseModelView {
    Java(JavaDataView),
    Bedrock(BedrockDataView),
}

impl View for ResponseModel {
    type V = ResponseModelView;

    open spec fn view(&self) -> ResponseModelView {
        match self {
            ResponseModel::Java(d) => ResponseModelView::Java(d@),
            ResponseModel::Bedrock(d) => ResponseModelView::Bedrock(d@),
        }
    }
}

impl ResponseModel {
    /// The edition whose protocol produced this payload.
    pub fn edition(&self) -> (r: Edition)
        ensures
            r == self.edition_spec(),
    {
        match self {
            ResponseModel::Java(_) => Edition::Java,
            ResponseModel::Bedrock(_) => Edition::Bedrock,
        }
    }

    pub open spec fn edition_spec(&self) -> Edition {
        match self {
            ResponseModel::Java(_) => Edition::Java,
            ResponseModel::Bedrock(_) => Edition::Bedrock,
        }
    }
}

/// The (online, max) player counts of a poll's data.
pub open spec fn counts_of(m: ResponseModelView) -> (i64, i64) {
    match m {
        ResponseModelView::Java(d) => (d.online, d.max),
        ResponseModelView::Bedrock(d) => (d.online, d.max),
    }
}

/// The player sample of a poll's data; empty when the server sent none.
pub open spec fn sample_of(m: ResponseModelView) -> Seq<PlayerEntryView> {
    match m {
        ResponseModelView::Java(d) => match d.sample {
            Some(s) => s,
            None => Seq::empty(),
        },
        ResponseModelView::Bedrock(_) => Seq::empty(),
    }
}

/// The (online, max) player counts of this poll.
pub fn counts(m: &ResponseModel) -> (r: (i64, i64))
    ensures
        r == counts_of(m@),
{
    match m {
        ResponseModel::Java(d) => (d.online, d.max),
        ResponseModel::Bedrock(d) => (d.online, d.max),
    }
}

} // verus!
