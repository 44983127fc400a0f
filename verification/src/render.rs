//! Building the ordered sequence of text lines that summarizes one poll.
//!
//! The lines are plain text; decorating them (color, boxing) is the
//! renderer's business, outside this crate.  The first line carries the
//! timestamp and the polled address, the rest the edition-specific field
//! set, with optional fields appearing only where the server reported
//! them.

use vstd::prelude::*;
use vstd::string::*;

use crate::model::BedrockDataView;
use crate::model::JavaDataView;
use crate::model::ModEntryView;
use crate::model::PlayerEntryView;
use crate::model::PluginEntryView;
use crate::model::ResponseModel;
use crate::model::ResponseModelView;
use crate::numfmt::dec_str;
use crate::numfmt::dec_str_i64;
use crate::numfmt::i64_to_dec;
use crate::numfmt::u64_to_dec;

verus! {

/// The header line of every cycle.
pub open spec fn header_line(ts: Seq<char>, addr: Seq<char>) -> Seq<char> {
    "["@ + ts + "] Pinged server with address "@ + addr + "."@
}

/// A line per sampled player.
pub open spec fn player_lines(ps: Seq<PlayerEntryView>) -> Seq<Seq<char>> {
    Seq::new(ps.len(), |i: int| "  - "@ + ps[i].name + " ("@ + ps[i].id + ")"@)
}

pub open spec fn version_or_unknown(v: Option<Seq<char>>) -> Seq<char> {
    match v {
        Some(x) => x,
        None => "unknown"@,
    }
}

/// A line per reported plugin, with `unknown` where it has no version.
pub open spec fn plugin_lines(ps: Seq<PluginEntryView>) -> Seq<Seq<char>> {
    Seq::new(
        ps.len(),
        |i: int| "  - "@ + ps[i].name + " ("@ + version_or_unknown(ps[i].version) + ")"@,
    )
}

/// A line per reported mod, with `unknown` where it has no version.
pub open spec fn mod_lines(ps: Seq<ModEntryView>) -> Seq<Seq<char>> {
    Seq::new(
        ps.len(),
        |i: int| "  - "@ + ps[i].modid + " ("@ + version_or_unknown(ps[i].version) + ")"@,
    )
}

/// Zero or one line for an optional field.
pub open spec fn opt_line(label: Seq<char>, v: Option<Seq<char>>) -> Seq<Seq<char>> {
    match v {
        Some(x) => seq![label + x],
        None => Seq::empty(),
    }
}

/// The plugin block, or failing that the mod block, or nothing.
pub open spec fn plugin_or_mod_lines(d: JavaDataView) -> Seq<Seq<char>> {
    match d.plugins {
        Some(pl) => seq!["\nPlugins: "@ + dec_str(pl.len())] + plugin_lines(pl),
        None => match d.mods {
            Some(ml) => seq!["\nMods: "@ + dec_str(ml.len())] + mod_lines(ml),
            None => Seq::empty(),
        },
    }
}

/// The render lines for a Java poll.
pub open spec fn java_lines(d: JavaDataView, ts: Seq<char>, addr: Seq<char>) -> Seq<Seq<char>> {
    seq![
        header_line(ts, addr),
        "\nDescription:\n"@ + d.description,
        "\nVersion: "@ + d.version_name,
        "\nPlayers: "@ + dec_str_i64(d.online as int) + "/"@ + dec_str_i64(d.max as int),
    ] + (match d.sample {
        Some(ps) => player_lines(ps),
        None => Seq::empty(),
    }) + opt_line("\nMap Name: "@, d.map) + opt_line("\nGame Mode: "@, d.gamemode) + opt_line(
        "\nSoftware: "@,
        d.software,
    ) + plugin_or_mod_lines(d)
}

/// The render lines for a Bedrock poll.
pub open spec fn bedrock_lines(d: BedrockDataView, ts: Seq<char>, addr: Seq<char>) -> Seq<
    Seq<char>,
> {
    seq![
        header_line(ts, addr),
        "\nEdition: "@ + d.edition,
        "\nMOTD:\n"@ + d.motd,
        "\nSecondary MOTD:\n"@ + d.motd2,
        "\nProtocol Version: "@ + dec_str_i64(d.protocol_version as int),
        "\nVersion: "@ + d.version,
        "\nPlayers: "@ + dec_str_i64(d.online as int) + "/"@ + dec_str_i64(d.max as int),
        "\nServer UID: "@ + d.server_uid,
        "\nGame Mode: "@ + d.game_mode + " ("@ + dec_str_i64(d.game_mode_numeric as int) + ")"@,
        "\nIPv4 Port: "@ + dec_str_i64(d.port_ipv4 as int),
        "\nIPv6 Port: "@ + dec_str_i64(d.port_ipv6 as int),
    ] + opt_line("\nMap Name: "@, d.map) + opt_line("\nSoftware: "@, d.software)
}

/// The full render line set for one poll.
pub open spec fn render_lines_spec(m: ResponseModelView, ts: Seq<char>, addr: Seq<char>) -> Seq<
    Seq<char>,
> {
    match m {
        ResponseModelView::Java(d) => java_lines(d, ts, addr),
        ResponseModelView::Bedrock(d) => bedrock_lines(d, ts, addr),
    }
}

fn cat2(a: &str, b: &str) -> (r: String)
    ensures
        r@ == a@ + b@,
{
    let mut s = String::from_str(a);
    s.append(b);
    s
}

fn cat4(a: &str, b: &str, c: &str, d: &str) -> (r: String)
    ensures
        r@ == a@ + b@ + c@ + d@,
{
    let mut s = String::from_str(a);
    s.append(b);
    s.append(c);
    s.append(d);
    s
}

fn cat5(a: &str, b: &str, c: &str, d: &str, e: &str) -> (r: String)
    ensures
        r@ == a@ + b@ + c@ + d@ + e@,
{
    let mut s = String::from_str(a);
    s.append(b);
    s.append(c);
    s.append(d);
    s.append(e);
    s
}


fn push_line(out: &mut Vec<String>, line: String)
    ensures
        final(out).deep_view() == old(out).deep_view().push(line@),
{
    let ghost prev = *out;
    out.push(line);
    proof {
        assert forall|j: int|
            0 <= j < out.deep_view().len() implies out.deep_view()[j] == prev.deep_view().push(
            line@,
        )[j] by {
            if j < prev@.len() {
                assert(out@[j] == prev@[j]);
            } else {
                assert(out@[j] == line);
            }
        }
        assert(out.deep_view() =~~= prev.deep_view().push(line@));
    }
}

fn push_opt_line(out: &mut Vec<String>, label: &str, v: &Option<String>)
    ensures
        final(out).deep_view() == old(out).deep_view() + opt_line(
            label@,
            crate::model::view_opt_str(*v),
        ),
{
    let ghost pre = out.deep_view();
    match v {
        Some(x) => {
            push_line(out, cat2(label, x.as_str()));
            proof {
                assert(out.deep_view() =~~= pre + opt_line(label@, crate::model::view_opt_str(*v)));
            }
        },
        None => {
            proof {
                assert(out.deep_view() =~~= pre + opt_line(label@, crate::model::view_opt_str(*v)));
            }
        },
    }
}

fn push_player_lines(out: &mut Vec<String>, ps: &Vec<crate::model::PlayerEntry>)
    ensures
        final(out).deep_view() == old(out).deep_view() + player_lines(ps.deep_view()),
{
    let ghost pre = out.deep_view();
    let mut i: usize = 0;
    while i < ps.len()
        invariant
            i <= ps@.len(),
            out.deep_view() == pre + player_lines(ps.deep_view().subrange(0, i as int)),
        decreases ps@.len() - i,
    {
        let line = cat5("  - ", ps[i].name.as_str(), " (", ps[i].id.as_str(), ")");
        push_line(out, line);
        proof {
            assert(out.deep_view() =~~= pre + player_lines(
                ps.deep_view().subrange(0, i as int + 1),
            ));
        }
        i += 1;
    }
    proof {
        assert(ps.deep_view().subrange(0, ps.deep_view().len() as int) =~= ps.deep_view());
    }
}

fn version_str(v: &Option<String>) -> (r: &str)
    ensures
        r@ == version_or_unknown(crate::model::view_opt_str(*v)),
{
    match v {
        Some(x) => x.as_str(),
        None => "unknown",
    }
}

fn push_plugin_lines(out: &mut Vec<String>, ps: &Vec<crate::model::PluginEntry>)
    ensures
        final(out).deep_view() == old(out).deep_view() + plugin_lines(ps.deep_view()),
{
    let ghost pre = out.deep_view();
    let mut i: usize = 0;
    while i < ps.len()
        invariant
            i <= ps@.len(),
            out.deep_view() == pre + plugin_lines(ps.deep_view().subrange(0, i as int)),
        decreases ps@.len() - i,
    {
        let line = cat5("  - ", ps[i].name.as_str(), " (", version_str(&ps[i].version), ")");
        push_line(out, line);
        proof {
            assert(out.deep_view() =~~= pre + plugin_lines(
                ps.deep_view().subrange(0, i as int + 1),
            ));
        }
        i += 1;
    }
    proof {
        assert(ps.deep_view().subrange(0, ps.deep_view().len() as int) =~= ps.deep_view());
    }
}

fn push_mod_lines(out: &mut Vec<String>, ps: &Vec<crate::model::ModEntry>)
    ensures
        final(out).deep_view() == old(out).deep_view() + mod_lines(ps.deep_view()),
{
    let ghost pre = out.deep_view();
    let mut i: usize = 0;
    while i < ps.len()
        invariant
            i <= ps@.len(),
            out.deep_view() == pre + mod_lines(ps.deep_view().subrange(0, i as int)),
        decreases ps@.len() - i,
    {
        let line = cat5("  - ", ps[i].modid.as_str(), " (", version_str(&ps[i].version), ")");
        push_line(out, line);
        proof {
            assert(out.deep_view() =~~= pre + mod_lines(ps.deep_view().subrange(0, i as int + 1)));
        }
        i += 1;
    }
    proof {
        assert(ps.deep_view().subrange(0, ps.deep_view().len() as int) =~= ps.deep_view());
    }
}

/// Build the ordered render lines for one poll.
#[verifier::rlimit(60)]
pub fn render_lines(m: &ResponseModel, timestamp: &str, address: &str) -> (r: Vec<String>)
    ensures
        r.deep_view() == render_lines_spec(m@, timestamp@, address@),
{
    let mut out: Vec<String> = Vec::new();
    push_line(&mut out, cat5("[", timestamp, "] Pinged server with address ", address, "."));
    match m {
        ResponseModel::Java(d) => {
            push_line(&mut out, cat2("\nDescription:\n", d.description.as_str()));
            push_line(&mut out, cat2("\nVersion: ", d.version_name.as_str()));
            let online = i64_to_dec(d.online);
            let max = i64_to_dec(d.max);
            push_line(&mut out, cat4("\nPlayers: ", online.as_str(), "/", max.as_str()));
            let ghost fixed = out.deep_view();
            match &d.sample {
                Some(ps) => {
                    push_player_lines(&mut out, ps);
                },
                None => {},
            }
            push_opt_line(&mut out, "\nMap Name: ", &d.map);
            push_opt_line(&mut out, "\nGame Mode: ", &d.gamemode);
            push_opt_line(&mut out, "\nSoftware: ", &d.software);
            match &d.plugins {
                Some(pl) => {
                    let count = u64_to_dec(pl.len() as u64);
                    push_line(&mut out, cat2("\nPlugins: ", count.as_str()));
                    push_plugin_lines(&mut out, pl);
                },
                None => {
                    match &d.mods {
                        Some(ml) => {
                            let count = u64_to_dec(ml.len() as u64);
                            push_line(&mut out, cat2("\nMods: ", count.as_str()));
                            push_mod_lines(&mut out, ml);
                        },
                        None => {},
                    }
                },
            }
            proof {
                assert(out.deep_view() =~~= render_lines_spec(m@, timestamp@, address@));
            }
        },
        ResponseModel::Bedrock(d) => {
            push_line(&mut out, cat2("\nEdition: ", d.edition.as_str()));
            push_line(&mut out, cat2("\nMOTD:\n", d.motd.as_str()));
            push_line(&mut out, cat2("\nSecondary MOTD:\n", d.motd2.as_str()));
            let pv = i64_to_dec(d.protocol_version);
            push_line(&mut out, cat2("\nProtocol Version: ", pv.as_str()));
            push_line(&mut out, cat2("\nVersion: ", d.version.as_str()));
            let online = i64_to_dec(d.online);
            let max = i64_to_dec(d.max);
            push_line(&mut out, cat4("\nPlayers: ", online.as_str(), "/", max.as_str()));
            push_line(&mut out, cat2("\nServer UID: ", d.server_uid.as_str()));
            let gmn = i64_to_dec(d.game_mode_numeric);
            push_line(&mut out, cat5("\nGame Mode: ", d.game_mode.as_str(), " (", gmn.as_str(), ")"));
            let p4 = i64_to_dec(d.port_ipv4);
            push_line(&mut out, cat2("\nIPv4 Port: ", p4.as_str()));
            let p6 = i64_to_dec(d.port_ipv6);
            push_line(&mut out, cat2("\nIPv6 Port: ", p6.as_str()));
            push_opt_line(&mut out, "\nMap Name: ", &d.map);
            push_opt_line(&mut out, "\nSoftware: ", &d.software);
            proof {
                assert(out.deep_view() =~~= render_lines_spec(m@, timestamp@, address@));
            }
        },
    }
    out
}

} // verus!
