//! The poll loop's cross-cycle state and the diff rule that decides what
//! is logged.
//!
//! The loop itself — the network call, the sleep, the file append — lives
//! outside the crate.  Each completed cycle is handed to [`run_cycle`],
//! which advances the iteration counter, compares the player counts
//! against the last seen pair, and returns the exact text to append to
//! the log, if any.

use vstd::prelude::*;
use vstd::string::*;

use crate::address::ServerAddress;
use crate::address::host_ok;
use crate::error::ProtocolError;
use crate::model::Edition;
use crate::model::PlayerEntryView;
use crate::model::ResponseModel;
use crate::model::counts_of;
use crate::model::sample_of;
use crate::numfmt::dec_str;
use crate::numfmt::dec_str_i64;
use crate::numfmt::i64_to_dec;
use crate::numfmt::u64_to_dec;

verus! {

/// What is appended to the log file.
#[derive(Clone, Copy, Debug, PartialEq, Eq, Structural)]
pub enum OutputMode {
    /// Every rendered cycle is appended, with color control sequences
    /// stripped.
    All,
    /// Only a change in the (online, max) player counts is appended.
    Players,
}

/// The configuration of one poller run, built once from validated input
/// and never mutated.
#[derive(Clone, Debug)]
pub struct PollConfig {
    pub address: ServerAddress,
    pub edition: Edition,
    /// Seconds between poll starts, not counting the round trip itself.
    pub interval_secs: u64,
    /// Seconds to wait for one round trip before giving up.
    pub timeout_secs: u64,
    /// Upper bound on simultaneous in-flight requests of the client.
    pub max_parallel: u64,
    pub mode: OutputMode,
    /// Whether log writes happen at all.
    pub logging: bool,
}

impl PollConfig {
    /// Build a configuration, rejecting an invalid host before any
    /// network use.
    pub fn new(
        host: String,
        port: u16,
        edition: Edition,
        interval_secs: u64,
        timeout_secs: u64,
        max_parallel: u64,
        mode: OutputMode,
        logging: bool,
    ) -> (r: Result<PollConfig, ProtocolError>)
        ensures
            match r {
                Ok(c) => {
                    &&& host_ok(host@)
                    &&& c.address.host@ == host@
                    &&& c.address.port == port
                    &&& c.edition == edition
                    &&& c.interval_secs == interval_secs
                    &&& c.timeout_secs == timeout_secs
                    &&& c.max_parallel == max_parallel
                    &&& c.mode == mode
                    &&& c.logging == logging
                },
                Err(e) => e == ProtocolError::InvalidAddress && !host_ok(host@),
            },
            r is Ok <==> host_ok(host@),
    {
        match ServerAddress::new(host, port) {
            Ok(address) => Ok(
                PollConfig {
                    address,
                    edition,
                    interval_secs,
                    timeout_secs,
                    max_parallel,
                    mode,
                    logging,
                },
            ),
            Err(e) => Err(e),
        }
    }
}

/// The loop's only cross-cycle memory: the last seen player counts and
/// the iteration counter.
pub struct PollState {
    /// The (online, max) pair most recently stored by the diff rule;
    /// nothing before the first cycle.
    pub last: Option<(i64, i64)>,
    /// The number of the cycle about to run, starting at one.
    pub iteration: u64,
}

impl PollState {
    /// Fresh state: no counts seen, iteration counter at one.
    pub fn new() -> (s: PollState)
        ensures
            s.last is None,
            s.iteration == 1,
    {
        PollState { last: None, iteration: 1 }
    }

    /// The number of the cycle about to run.
    pub fn iteration(&self) -> (r: u64)
        ensures
            r == self.iteration,
    {
        self.iteration
    }
}

/// The text a rendered cycle leaves in the log, with ANSI color control
/// sequences removed: what `strip_ansi_escapes::strip_str` returns for
/// the given text.
pub uninterp spec fn stripped_of(s: Seq<char>) -> Seq<char>;

/// Relies on strip_ansi_escapes::strip_str: a pure transform of the text
/// alone, removing ANSI escape sequences.
#[verifier::external_body]
fn strip_ansi(s: &str) -> (r: String)
    ensures
        r@ == stripped_of(s@),
{
    strip_ansi_escapes::strip_str(s)
}

/// Does a cycle with the given counts leave a log entry?
pub open spec fn cycle_emits(
    last: Option<(i64, i64)>,
    counts: (i64, i64),
    mode: OutputMode,
    logging: bool,
) -> bool {
    &&& logging
    &&& match mode {
        OutputMode::All => true,
        OutputMode::Players => match last {
            Some(c) => c != counts,
            None => false,
        },
    }
}

/// The stored counts after a cycle: in players mode the first cycle
/// stores a baseline, and later cycles store the counts exactly when
/// they changed; otherwise the stored pair is untouched.
pub open spec fn next_last(
    last: Option<(i64, i64)>,
    counts: (i64, i64),
    mode: OutputMode,
    logging: bool,
) -> Option<(i64, i64)> {
    if logging && mode == OutputMode::Players {
        match last {
            None => Some(counts),
            Some(c) => if c != counts {
                Some(counts)
            } else {
                last
            },
        }
    } else {
        last
    }
}

/// The sample block of a players-mode log entry: one indented line per
/// sampled player.
pub open spec fn sample_block(ps: Seq<PlayerEntryView>) -> Seq<char>
    decreases ps.len(),
{
    if ps.len() == 0 {
        Seq::empty()
    } else {
        sample_block(ps.drop_last()) + "\n  - "@ + ps.last().name + " ("@ + ps.last().id + ")"@
    }
}

/// The full players-mode log entry: the event line, the sample block,
/// and a blank line.
pub open spec fn event_text(
    ts: Seq<char>,
    counts: (i64, i64),
    addr: Seq<char>,
    iteration: u64,
    ps: Seq<PlayerEntryView>,
) -> Seq<char> {
    "["@ + ts + "] There are now "@ + dec_str_i64(counts.0 as int) + "/"@ + dec_str_i64(
        counts.1 as int,
    ) + " players on the server "@ + addr + ". (Iteration "@ + dec_str(iteration as nat) + ")"@
        + sample_block(ps) + "\n\n"@
}

/// Build the players-mode log entry for one change.
fn build_event_text(
    timestamp: &str,
    counts: (i64, i64),
    address: &str,
    iteration: u64,
    m: &ResponseModel,
) -> (r: String)
    ensures
        r@ == event_text(timestamp@, counts, address@, iteration, sample_of(m@)),
{
    let mut s = String::from_str("[");
    s.append(timestamp);
    s.append("] There are now ");
    let online = i64_to_dec(counts.0);
    s.append(online.as_str());
    s.append("/");
    let max = i64_to_dec(counts.1);
    s.append(max.as_str());
    s.append(" players on the server ");
    s.append(address);
    s.append(". (Iteration ");
    let it = u64_to_dec(iteration);
    s.append(it.as_str());
    s.append(")");
    let ghost prefix = s@;
    match m {
        ResponseModel::Java(d) => match &d.sample {
            Some(ps) => {
                let mut i: usize = 0;
                while i < ps.len()
                    invariant
                        i <= ps@.len(),
                        sample_of(m@) == ps.deep_view(),
                        s@ == prefix + sample_block(ps.deep_view().subrange(0, i as int)),
                    decreases ps@.len() - i,
                {
                    s.append("\n  - ");
                    s.append(ps[i].name.as_str());
                    s.append(" (");
                    s.append(ps[i].id.as_str());
                    s.append(")");
                    proof {
                        let sub = ps.deep_view().subrange(0, i as int + 1);
                        assert(sub.drop_last() =~= ps.deep_view().subrange(0, i as int));
                        assert(sub.last() == ps.deep_view()[i as int]);
                        assert(s@ == prefix + sample_block(sub));
                    }
                    i += 1;
                }
                proof {
                    assert(ps.deep_view().subrange(0, ps.deep_view().len() as int) =~= ps
                        .deep_view());
                }
            },
            None => {
                proof {
                    assert(sample_of(m@) =~= Seq::<PlayerEntryView>::empty());
                }
            },
        },
        ResponseModel::Bedrock(_) => {
            proof {
                assert(sample_of(m@) =~= Seq::<PlayerEntryView>::empty());
            }
        },
    }
    s.append("\n\n");
    s
}

/// Run the bookkeeping of one completed poll cycle.
///
/// The iteration counter advances by exactly one.  The returned text, if
/// any, is exactly what the caller appends to the log: in `All` mode the
/// rendered text with color sequences stripped, in `Players` mode the
/// event record for a change in the counts.  The stored counts move only
/// as the diff rule directs; with logging off nothing is returned and
/// nothing stored.
pub fn run_cycle(
    state: &mut PollState,
    m: &ResponseModel,
    rendered: &str,
    timestamp: &str,
    address: &str,
    mode: OutputMode,
    logging: bool,
) -> (log: Option<String>)
    requires
        old(state).iteration < u64::MAX,
    ensures
        final(state).iteration == old(state).iteration + 1,
        final(state).last == next_last(old(state).last, counts_of(m@), mode, logging),
        log is Some <==> cycle_emits(old(state).last, counts_of(m@), mode, logging),
        mode == OutputMode::All && logging ==> (log matches Some(t) && t@ == stripped_of(
            rendered@,
        ) + "\n"@),
        (mode == OutputMode::Players && log is Some) ==> (log matches Some(t) && t@ == event_text(
            timestamp@,
            counts_of(m@),
            address@,
            old(state).iteration,
            sample_of(m@),
        )),
{
    let counts = crate::model::counts(m);
    let mut log: Option<String> = None;
    if logging {
        match mode {
            OutputMode::All => {
                let mut t = strip_ansi(rendered);
                t.append("\n");
                log = Some(t);
            },
            OutputMode::Players => {
                match state.last {
                    None => {
                        state.last = Some(counts);
                    },
                    Some(c) => {
                        if c.0 != counts.0 || c.1 != counts.1 {
                            let t = build_event_text(
                                timestamp,
                                counts,
                                address,
                                state.iteration,
                                m,
                            );
                            log = Some(t);
                            state.last = Some(counts);
                        }
                    },
                }
            },
        }
    }
    state.iteration = state.iteration + 1;
    log
}

/// One spec-level step of the diff rule, over the whole state.
pub open spec fn step_state(
    st: (Option<(i64, i64)>, nat),
    counts: (i64, i64),
    mode: OutputMode,
    logging: bool,
) -> (Option<(i64, i64)>, nat) {
    (next_last(st.0, counts, mode, logging), (st.1 + 1) as nat)
}

/// The state after a run of cycles with the given counts.
pub open spec fn run_states(
    st: (Option<(i64, i64)>, nat),
    cs: Seq<(i64, i64)>,
    mode: OutputMode,
    logging: bool,
) -> (Option<(i64, i64)>, nat)
    decreases cs.len(),
{
    if cs.len() == 0 {
        st
    } else {
        run_states(step_state(st, cs[0], mode, logging), cs.drop_first(), mode, logging)
    }
}

/// How many log entries a run of cycles with the given counts leaves.
pub open spec fn emit_count(
    last: Option<(i64, i64)>,
    cs: Seq<(i64, i64)>,
    mode: OutputMode,
    logging: bool,
) -> nat
    decreases cs.len(),
{
    if cs.len() == 0 {
        0
    } else {
        (if cycle_emits(last, cs[0], mode, logging) {
            1nat
        } else {
            0
        }) + emit_count(next_last(last, cs[0], mode, logging), cs.drop_first(), mode, logging)
    }
}

/// In `All` mode with logging on, a run of N cycles leaves exactly N log
/// entries, whatever the counts do.
pub proof fn lemma_all_mode_logs_every_cycle(
    last: Option<(i64, i64)>,
    cs: Seq<(i64, i64)>,
)
    ensures
        emit_count(last, cs, OutputMode::All, true) == cs.len(),
    decreases cs.len(),
{
    if cs.len() > 0 {
        lemma_all_mode_logs_every_cycle(
            next_last(last, cs[0], OutputMode::All, true),
            cs.drop_first(),
        );
    }
}

/// In `Players` mode, a cycle whose counts equal the stored pair leaves
/// no log entry and does not move the stored pair.
pub proof fn lemma_players_unchanged_counts_silent(c: (i64, i64))
    ensures
        !cycle_emits(Some(c), c, OutputMode::Players, true),
        next_last(Some(c), c, OutputMode::Players, true) == Some(c),
{
}

/// In `Players` mode, a cycle whose counts differ from the stored pair
/// leaves exactly one log entry and stores the new counts.
pub proof fn lemma_players_changed_counts_logged(c: (i64, i64), counts: (i64, i64))
    requires
        c != counts,
    ensures
        cycle_emits(Some(c), counts, OutputMode::Players, true),
        next_last(Some(c), counts, OutputMode::Players, true) == Some(counts),
{
}

/// In `Players` mode, a run of cycles all reporting the stored counts
/// leaves no log entry at all.
pub proof fn lemma_players_identical_run_silent(c: (i64, i64), cs: Seq<(i64, i64)>)
    requires
        forall|i: int| 0 <= i < cs.len() ==> cs[i] == c,
    ensures
        emit_count(Some(c), cs, OutputMode::Players, true) == 0,
    decreases cs.len(),
{
    if cs.len() > 0 {
        assert(cs[0] == c);
        lemma_players_identical_run_silent(c, cs.drop_first());
    }
}

/// In `Players` mode, one change followed by any run of cycles that all
/// repeat the new counts leaves exactly one log entry in all: the one
/// for the change.
pub proof fn lemma_players_one_change_one_write(
    c0: (i64, i64),
    c1: (i64, i64),
    cs: Seq<(i64, i64)>,
)
    requires
        c0 != c1,
        forall|i: int| 0 <= i < cs.len() ==> cs[i] == c1,
    ensures
        emit_count(Some(c0), seq![c1] + cs, OutputMode::Players, true) == 1,
{
    let run = seq![c1] + cs;
    assert(run[0] == c1);
    assert(run.drop_first() =~= cs);
    assert(cycle_emits(Some(c0), c1, OutputMode::Players, true));
    assert(next_last(Some(c0), c1, OutputMode::Players, true) == Some(c1));
    lemma_players_identical_run_silent(c1, cs);
}

/// The iteration counter climbs by exactly one per cycle: after any run
/// it stands at its start plus the number of completed cycles, so the
/// cycles are numbered without gaps whether or not they were logged.
pub proof fn lemma_iteration_counts_cycles(
    st: (Option<(i64, i64)>, nat),
    cs: Seq<(i64, i64)>,
    mode: OutputMode,
    logging: bool,
)
    ensures
        run_states(st, cs, mode, logging).1 == st.1 + cs.len(),
    decreases cs.len(),
{
    if cs.len() > 0 {
        lemma_iteration_counts_cycles(step_state(st, cs[0], mode, logging), cs.drop_first(), mode, logging);
    }
}

} // verus!
