//! Announcing the server to the public list of servers.

use vstd::prelude::*;
use vstd::string::*;
use crate::config::Config;

verus! {

/// Where the server announces itself.
pub const BROADCAST_URL: &'static str = "https://api.example.com/v1/ServerBroadcast";

/// The seconds between two announcements.
pub const BROADCAST_INTERVAL_SECS: u64 = 600;

/// JSON body sent to the server broadcast API.
#[derive(Debug, Clone, Copy)]
pub struct BroadcastPayload<'a> {
    pub server_name: &'a str,
    pub server_description: &'a str,
    pub country: &'a str,
    pub address: &'a str,
}

/// An announcement: where it is posted, under which user agent, and its body.
#[derive(Debug, Clone, Copy)]
pub struct BroadcastRequest<'a> {
    pub url: &'a str,
    pub user_agent: &'a str,
    pub payload: BroadcastPayload<'a>,
}

/// How far the announcing has come.
#[derive(Debug, Clone, Copy, PartialEq, Eq, Structural)]
pub enum BroadcastPhase {
    /// Nothing has been done.
    Start,
    /// The first announcement has been made.
    Announced,
    /// The next announcement is not due.
    Idle,
    /// The next announcement is due.
    Due,
}

/// What the announcing does next.
#[derive(Debug, Clone, Copy, PartialEq, Eq, Structural)]
pub enum BroadcastAction {
    /// End: the server is not to be announced.
    Stop,
    /// Announce the server.
    Post,
    /// Wait for the next tick of a timer with a period of [`BROADCAST_INTERVAL_SECS`] whose
    /// first tick is immediate.
    AwaitTick,
}

/// What the announcing does in a phase, and the phase that follows.
pub open spec fn broadcast_step(
    enabled: bool,
    phase: BroadcastPhase,
) -> (BroadcastPhase, BroadcastAction) {
    match phase {
        BroadcastPhase::Start => if enabled {
            (BroadcastPhase::Announced, BroadcastAction::Post)
        } else {
            (BroadcastPhase::Start, BroadcastAction::Stop)
        },
        BroadcastPhase::Announced => (BroadcastPhase::Idle, BroadcastAction::AwaitTick),
        BroadcastPhase::Idle => (BroadcastPhase::Due, BroadcastAction::AwaitTick),
        BroadcastPhase::Due => (BroadcastPhase::Idle, BroadcastAction::Post),
    }
}

/// One turn of the announcing: what to do now, and the phase that follows. The first
/// announcement is made at once, so that it does not wait for the timer; the first tick of the
/// timer, which is immediate, is let pass; after that every tick brings an announcement.
pub fn broadcast_loop(config: &Config, phase: BroadcastPhase) -> (r: (
    BroadcastPhase,
    BroadcastAction,
))
    ensures
        r == broadcast_step(config.broadcast_server, phase),
        r == match phase {
            BroadcastPhase::Start => if config.broadcast_server {
                (BroadcastPhase::Announced, BroadcastAction::Post)
            } else {
                (BroadcastPhase::Start, BroadcastAction::Stop)
            },
            BroadcastPhase::Announced => (BroadcastPhase::Idle, BroadcastAction::AwaitTick),
            BroadcastPhase::Idle => (BroadcastPhase::Due, BroadcastAction::AwaitTick),
            BroadcastPhase::Due => (BroadcastPhase::Idle, BroadcastAction::Post),
        },
{
    match phase {
        BroadcastPhase::Start => {
            // Only start the loop if broadcast is enabled.
            if !config.broadcast_server {
                return (BroadcastPhase::Start, BroadcastAction::Stop);
            }
            (BroadcastPhase::Announced, BroadcastAction::Post)
        },
        BroadcastPhase::Announced => (BroadcastPhase::Idle, BroadcastAction::AwaitTick),
        BroadcastPhase::Idle => (BroadcastPhase::Due, BroadcastAction::AwaitTick),
        BroadcastPhase::Due => (BroadcastPhase::Idle, BroadcastAction::Post),
    }
}

/// The user agent that the server announces itself under.
pub fn user_agent(version: &str) -> (r: String)
    ensures
        r@ == "trilld/"@ + version@,
{
    "trilld/".to_owned().concat(version)
}

/// The model of a [`BroadcastRequest`].
#[verifier::ext_equal]
pub struct BroadcastRequestView {
    pub url: Seq<char>,
    pub user_agent: Seq<char>,
    pub server_name: Seq<char>,
    pub server_description: Seq<char>,
    pub country: Seq<char>,
    pub address: Seq<char>,
}

impl<'a> View for BroadcastRequest<'a> {
    type V = BroadcastRequestView;

    open spec fn view(&self) -> BroadcastRequestView {
        BroadcastRequestView {
            url: self.url@,
            user_agent: self.user_agent@,
            server_name: self.payload.server_name@,
            server_description: self.payload.server_description@,
            country: self.payload.country@,
            address: self.payload.address@,
        }
    }
}

/// The announcement of a configured server: its name, description, country and address, posted
/// to `url` under `user_agent`.
pub open spec fn request_for(
    config: Config,
    url: Seq<char>,
    user_agent: Seq<char>,
) -> BroadcastRequestView {
    BroadcastRequestView {
        url,
        user_agent,
        server_name: config.server_name@,
        server_description: config.server_description@,
        country: config.server_country_code_alpha2@,
        address: config.endpoint_address@,
    }
}

/// The announcement of a configured server, for a given address.
pub fn broadcast_request<'a>(
    config: &'a Config,
    url: &'a str,
    user_agent: &'a str,
) -> (r: BroadcastRequest<'a>)
    ensures
        r.url@ == url@,
        r.user_agent@ == user_agent@,
        r.payload.server_name@ == config.server_name@,
        r.payload.server_description@ == config.server_description@,
        r.payload.country@ == config.server_country_code_alpha2@,
        r.payload.address@ == config.endpoint_address@,
        r@ == request_for(*config, url@, user_agent@),
{
    BroadcastRequest {
        url,
        user_agent,
        payload: BroadcastPayload {
            server_name: config.server_name.as_str(),
            server_description: config.server_description.as_str(),
            country: config.server_country_code_alpha2.as_str(),
            address: config.endpoint_address.as_str(),
        },
    }
}

/// The announcement that [`BroadcastAction::Post`] calls for.
pub fn announcement<'a>(config: &'a Config, user_agent: &'a str) -> (r: BroadcastRequest<'a>)
    ensures
        r.url@ == "https://api.example.com/v1/ServerBroadcast"@,
        r.user_agent@ == user_agent@,
        r.payload.server_name@ == config.server_name@,
        r.payload.server_description@ == config.server_description@,
        r.payload.country@ == config.server_country_code_alpha2@,
        r.payload.address@ == config.endpoint_address@,
        r@ == request_for(*config, BROADCAST_URL@, user_agent@),
{
    broadcast_request(config, BROADCAST_URL, user_agent)
}

/// An announcement holds the server's name, description, country and address as they are
/// configured, character for character, and goes to the address and under the user agent that it
/// is given.
pub proof fn law_announcements_are_verbatim(
    config: Config,
    url: Seq<char>,
    user_agent: Seq<char>,
    request: BroadcastRequest,
)
    requires
        request@ == request_for(config, url, user_agent),
    ensures
        request.url@ == url,
        request.user_agent@ == user_agent,
        request.payload.server_name@ == config.server_name@,
        request.payload.server_description@ == config.server_description@,
        request.payload.country@ == config.server_country_code_alpha2@,
        request.payload.address@ == config.endpoint_address@,
{
}

/// Two announcements are the same only where the four announced texts are the same: nothing of
/// them is lost on the way.
pub proof fn law_announcements_lose_nothing(
    c1: Config,
    c2: Config,
    url: Seq<char>,
    user_agent: Seq<char>,
)
    requires
        request_for(c1, url, user_agent) == request_for(c2, url, user_agent),
    ensures
        c1.server_name@ == c2.server_name@,
        c1.server_description@ == c2.server_description@,
        c1.server_country_code_alpha2@ == c2.server_country_code_alpha2@,
        c1.endpoint_address@ == c2.endpoint_address@,
{
}

/// An announcement holds nothing of the configuration but the server's name, description,
/// country and address: where two configurations agree on these, they announce the same, whatever
/// their TURN secret and credentials.
pub proof fn law_announcements_hold_nothing_else(
    c1: Config,
    c2: Config,
    url: Seq<char>,
    user_agent: Seq<char>,
)
    requires
        c1.server_name@ == c2.server_name@,
        c1.server_description@ == c2.server_description@,
        c1.server_country_code_alpha2@ == c2.server_country_code_alpha2@,
        c1.endpoint_address@ == c2.endpoint_address@,
    ensures
        request_for(c1, url, user_agent) == request_for(c2, url, user_agent),
{
}

/// What an announcement came to.
#[derive(Debug, PartialEq, Eq)]
pub enum BroadcastReport {
    /// It was accepted, with this status.
    Accepted(u16),
    /// It was answered with another status; the body of the response says why.
    Refused(u16),
    /// No response came. Holds the account of the failure.
    Failed(String),
}

/// What an announcement that was answered with `response`, a status or the account of a failure,
/// came to.
pub fn broadcast_report(response: Result<u16, String>) -> (r: BroadcastReport)
    ensures
        r == match response {
            Ok(status) => if 200 <= status < 300 {
                BroadcastReport::Accepted(status)
            } else {
                BroadcastReport::Refused(status)
            },
            Err(error) => BroadcastReport::Failed(error),
        },
{
    match response {
        Ok(status) => if 200 <= status && status < 300 {
            BroadcastReport::Accepted(status)
        } else {
            BroadcastReport::Refused(status)
        },
        Err(error) => BroadcastReport::Failed(error),
    }
}

/// The phase of an enabled server after `n` turns.
pub open spec fn phase_after(n: nat) -> BroadcastPhase
    decreases n,
{
    if n == 0 {
        BroadcastPhase::Start
    } else {
        broadcast_step(true, phase_after((n - 1) as nat)).0
    }
}

/// What an enabled server does in turn `n`.
pub open spec fn action_in(n: nat) -> BroadcastAction {
    broadcast_step(true, phase_after(n)).1
}

/// How often an enabled server does `action` in its first `n` turns.
pub open spec fn times_done(action: BroadcastAction, n: nat) -> nat
    decreases n,
{
    if n == 0 {
        0
    } else {
        let before = times_done(action, (n - 1) as nat);
        if action_in((n - 1) as nat) == action {
            before + 1
        } else {
            before
        }
    }
}

/// The seconds after the start at which the last of `ticks` ticks fires: the first is immediate,
/// the others follow at the interval.
pub open spec fn seconds_at_tick(ticks: nat) -> nat {
    if ticks == 0 {
        0
    } else {
        ((ticks - 1) * BROADCAST_INTERVAL_SECS) as nat
    }
}

proof fn lemma_counts(n: nat)
    ensures
        ({
            let posts = times_done(BroadcastAction::Post, n);
            let ticks = times_done(BroadcastAction::AwaitTick, n);
            match phase_after(n) {
                BroadcastPhase::Start => n == 0 && posts == 0 && ticks == 0,
                BroadcastPhase::Announced => posts == 1 && ticks == 0,
                BroadcastPhase::Idle => posts >= 1 && ticks == posts,
                BroadcastPhase::Due => posts >= 1 && ticks == posts + 1,
            }
        }),
    decreases n,
{
    if n > 0 {
        lemma_counts((n - 1) as nat);
    }
}

/// An enabled server announces itself at once and then every ten minutes: when it makes an
/// announcement, the ticks that it has waited for have taken the interval once for each earlier
/// announcement.
pub proof fn law_announced_every_interval(n: nat)
    requires
        action_in(n) == BroadcastAction::Post,
    ensures
        seconds_at_tick(times_done(BroadcastAction::AwaitTick, n)) == times_done(
            BroadcastAction::Post,
            n,
        ) * BROADCAST_INTERVAL_SECS,
        BROADCAST_INTERVAL_SECS == 10 * 60,
{
    lemma_counts(n);
}

/// An enabled server never stops announcing itself: within any three turns it makes an
/// announcement, and no turn ends the loop.
pub proof fn law_announcing_never_ends(n: nat)
    ensures
        action_in(n) != BroadcastAction::Stop,
        ({
            ||| action_in(n) == BroadcastAction::Post
            ||| action_in(n + 1) == BroadcastAction::Post
            ||| action_in(n + 2) == BroadcastAction::Post
        }),
{
    lemma_counts(n);
    assert(phase_after(n + 1) == broadcast_step(true, phase_after(n)).0);
    assert(phase_after(n + 2) == broadcast_step(true, phase_after(n + 1)).0);
}

/// The turns of an enabled server: the first announcement, two ticks, and from then on an
/// announcement and a tick in turn.
pub proof fn law_announcements_and_ticks_alternate(n: nat)
    ensures
        broadcast_step(true, phase_after(0)).1 == BroadcastAction::Post,
        broadcast_step(true, phase_after(1)).1 == BroadcastAction::AwaitTick,
        broadcast_step(true, phase_after(2 * n + 2)).1 == BroadcastAction::AwaitTick,
        broadcast_step(true, phase_after(2 * n + 3)).1 == BroadcastAction::Post,
        phase_after(0) == BroadcastPhase::Start,
        phase_after(n + 1) == broadcast_step(true, phase_after(n)).0,
    decreases n,
{
    reveal_with_fuel(phase_after, 4);
    assert(phase_after(1) == broadcast_step(true, phase_after(0)).0);
    assert(phase_after(2) == broadcast_step(true, phase_after(1)).0);
    lemma_even_turns_are_idle(n);
    assert(phase_after(2 * n + 3) == broadcast_step(true, phase_after(2 * n + 2)).0);
}

proof fn lemma_even_turns_are_idle(n: nat)
    ensures
        phase_after(2 * n + 2) == BroadcastPhase::Idle,
    decreases n,
{
    if n == 0 {
        assert(phase_after(1) == broadcast_step(true, phase_after(0)).0);
        assert(phase_after(2) == broadcast_step(true, phase_after(1)).0);
    } else {
        lemma_even_turns_are_idle((n - 1) as nat);
        assert(phase_after(2 * n + 1) == broadcast_step(true, phase_after(2 * n)).0);
        assert(phase_after(2 * n + 2) == broadcast_step(true, phase_after(2 * n + 1)).0);
    }
}

/// A server that is not to be announced makes no announcement: its loop ends in its first turn.
pub proof fn law_disabled_stays_silent(config: Config)
    requires
        !config.broadcast_server,
    ensures
        broadcast_step(config.broadcast_server, BroadcastPhase::Start) == (
            BroadcastPhase::Start,
            BroadcastAction::Stop,
        ),
{
}

} // verus!
