use vstd::prelude::*;
use crate::codec::action_frame;
use crate::command::{control_step, Command, ControlStep, PolygonAction};
use crate::subscriptions::{
    add_tokens, after_action, join, join_commas, strings_view, subscription_tokens, tokens_of,
    track, with_tokens,
};

verus! {

/// The first delay before retrying a connection, in milliseconds.
pub const BACKOFF_BASE_MS: u64 = 100;

/// The longest delay between two connection attempts, in milliseconds.
pub const BACKOFF_CAP_MS: u64 = 30000;

/// The life cycle of the upstream session.
#[derive(Clone, Copy, Debug, PartialEq, Eq)]
pub enum Phase {
    Disconnected,
    Connecting,
    Authenticating,
    Subscribing,
    Streaming,
    Reconnecting,
    Failed,
}

/// What the transport reports to the session.
#[derive(Clone, Copy, Debug, PartialEq, Eq)]
pub enum SessionEvent {
    /// The relay starts.
    Start,
    /// The socket is open.
    Opened,
    /// The socket could not be opened.
    OpenFailed,
    /// The last action frame was written.
    Sent,
    /// No data is available: the connection is lost.
    Lost,
    /// Any other transport error.
    Broken,
    /// The provider sent a fatal status.
    FatalStatus,
}

/// What the session asks its driver to do next.
#[derive(Clone, Copy, Debug, PartialEq, Eq)]
pub enum Directive {
    /// Open a socket to the provider after waiting this long.
    Open { delay_ms: u64 },
    /// Write the auth action.
    Authenticate,
    /// Write the subscribe action for the whole subscription set.
    Subscribe,
    /// Hand inbound frames to the relay engine.
    Stream,
    /// Nothing to do for this event.
    Wait,
    /// The session is over: stop the pipeline and report upward.
    Stop,
}

/// The delay before retry number `n + 1`: doubled each time, up to a cap.
pub open spec fn backoff_ms(n: nat) -> nat
    decreases n,
{
    if n == 0 {
        BACKOFF_BASE_MS as nat
    } else {
        let d = 2 * backoff_ms((n - 1) as nat);
        if d > BACKOFF_CAP_MS as nat {
            BACKOFF_CAP_MS as nat
        } else {
            d
        }
    }
}

/// The delay before retry number `n + 1`.
pub fn backoff(n: u32) -> (r: u64)
    ensures
        r == backoff_ms(n as nat),
{
    let mut d: u64 = BACKOFF_BASE_MS;
    let mut k: u32 = 0;
    while k < n
        invariant
            k <= n,
            d == backoff_ms(k as nat),
            d <= BACKOFF_CAP_MS,
        decreases n - k,
    {
        d = if d * 2 > BACKOFF_CAP_MS {
            BACKOFF_CAP_MS
        } else {
            d * 2
        };
        k = k + 1;
    }
    d
}

/// After failed attempt number `attempts + 1` to restore the connection:
/// give up once `max` attempts have failed, else wait and try again.
pub open spec fn retry(attempts: nat, max: nat) -> (Phase, nat, Directive) {
    if attempts + 1 >= max {
        (Phase::Failed, attempts + 1, Directive::Stop)
    } else {
        (Phase::Reconnecting, attempts + 1, Directive::Open { delay_ms: backoff_ms(attempts) as u64 })
    }
}

/// The session's transition: from a phase and the count of failed attempts
/// to restore the connection, on an event, to the next phase and count and
/// what to do.
pub open spec fn step(phase: Phase, attempts: nat, max: nat, e: SessionEvent) -> (
    Phase,
    nat,
    Directive,
) {
    if phase is Failed {
        (Phase::Failed, attempts, Directive::Stop)
    } else {
        match e {
            SessionEvent::Broken | SessionEvent::FatalStatus => (
                Phase::Failed,
                attempts,
                Directive::Stop,
            ),
            SessionEvent::Start => if phase is Disconnected {
                (Phase::Connecting, 0, Directive::Open { delay_ms: 0 })
            } else {
                (phase, attempts, Directive::Wait)
            },
            SessionEvent::Opened => if phase is Connecting || phase is Reconnecting {
                (Phase::Authenticating, attempts, Directive::Authenticate)
            } else {
                (phase, attempts, Directive::Wait)
            },
            SessionEvent::OpenFailed => if phase is Connecting {
                (Phase::Failed, attempts, Directive::Stop)
            } else if phase is Reconnecting {
                retry(attempts, max)
            } else {
                (phase, attempts, Directive::Wait)
            },
            SessionEvent::Sent => if phase is Authenticating {
                (Phase::Subscribing, attempts, Directive::Subscribe)
            } else if phase is Subscribing {
                (Phase::Streaming, 0, Directive::Stream)
            } else {
                (phase, attempts, Directive::Wait)
            },
            SessionEvent::Lost => if phase is Streaming {
                (Phase::Reconnecting, 0, Directive::Open { delay_ms: 0 })
            } else if phase is Authenticating || phase is Subscribing || phase is Reconnecting {
                retry(attempts, max)
            } else {
                (phase, attempts, Directive::Wait)
            },
        }
    }
}

/// The upstream session: where to connect, the token to authenticate with,
/// the subscription set to restore after every reconnect, and where the
/// session stands.
pub struct Session {
    url: String,
    token: String,
    tokens: Vec<String>,
    max_attempts: u32,
    phase: Phase,
    attempts: u32,
}

impl Session {
    pub closed spec fn spec_url(&self) -> Seq<char> {
        self.url@
    }

    pub closed spec fn spec_token(&self) -> Seq<char> {
        self.token@
    }

    /// The subscription set: the tokens `<class>.<ticker>` to subscribe to
    /// on every (re)connect, without repeats, in the order they were added.
    pub closed spec fn spec_tokens(&self) -> Seq<Seq<char>> {
        strings_view(self.tokens@)
    }

    pub closed spec fn spec_max_attempts(&self) -> nat {
        self.max_attempts as nat
    }

    pub closed spec fn spec_phase(&self) -> Phase {
        self.phase
    }

    pub closed spec fn spec_attempts(&self) -> nat {
        self.attempts as nat
    }

    pub closed spec fn wf(&self) -> bool {
        !(self.phase is Failed) ==> (self.attempts == 0 || self.attempts < self.max_attempts)
    }

    /// A session not yet connected, subscribed to every pair of an event
    /// class and a ticker. It gives up restoring a lost connection
    /// after `max_attempts` failed attempts.
    pub fn new(
        url: String,
        token: String,
        classes: Vec<String>,
        tickers: Vec<String>,
        max_attempts: u32,
    ) -> (r: Session)
        ensures
            r.wf(),
            r.spec_url() == url@,
            r.spec_token() == token@,
            r.spec_tokens() == with_tokens(
                Seq::empty(),
                subscription_tokens(strings_view(classes@), strings_view(tickers@)),
            ),
            r.spec_max_attempts() == max_attempts,
            r.spec_phase() == Phase::Disconnected,
            r.spec_attempts() == 0,
    {
        let mut tokens: Vec<String> = Vec::new();
        assert(strings_view(tokens@) =~= Seq::<Seq<char>>::empty());
        add_tokens(&mut tokens, &tokens_of(&classes, &tickers));
        Session { url, token, tokens, max_attempts, phase: Phase::Disconnected, attempts: 0 }
    }

    pub fn phase(&self) -> (r: Phase)
        ensures
            r == self.spec_phase(),
    {
        self.phase
    }

    pub fn attempts(&self) -> (r: u32)
        ensures
            r == self.spec_attempts(),
    {
        self.attempts
    }

    pub fn url(&self) -> (r: &str)
        ensures
            r@ == self.spec_url(),
    {
        self.url.as_str()
    }

    /// The auth action, carrying the token.
    pub fn auth_action(&self) -> (r: PolygonAction)
        ensures
            r.action@ == "auth"@,
            r.params@ == self.spec_token(),
    {
        PolygonAction { action: String::from_str("auth"), params: self.token.clone() }
    }

    /// The one subscribe action that covers the whole subscription set.
    pub fn subscribe_action(&self) -> (r: PolygonAction)
        ensures
            r.action@ == "subscribe"@,
            r.params@ == join_commas(self.spec_tokens()),
    {
        PolygonAction { action: String::from_str("subscribe"), params: join(&self.tokens) }
    }

    /// The control multiplexer's handling of `cmd`: what to do with it, as
    /// `control_step` decides, and, when an action frame is to be written,
    /// the subscription set updated by that action so that a reconnect
    /// restores it.
    pub fn on_command(&mut self, cmd: &Command) -> (r: ControlStep)
        requires
            old(self).wf(),
        ensures
            final(self).wf(),
            final(self).spec_url() == old(self).spec_url(),
            final(self).spec_token() == old(self).spec_token(),
            final(self).spec_max_attempts() == old(self).spec_max_attempts(),
            final(self).spec_phase() == old(self).spec_phase(),
            final(self).spec_attempts() == old(self).spec_attempts(),
            cmd is Start ==> r is Skip,
            cmd is Stop ==> r is Finish,
            cmd matches Command::Polygon(a) ==> r is Write,
            r matches ControlStep::Write(f) ==> cmd matches Command::Polygon(a) && f@
                == action_frame(a.action@, a.params@) && final(self).spec_tokens() == after_action(
                old(self).spec_tokens(),
                a.action@,
                a.params@,
            ),
            !(r is Write) ==> final(self).spec_tokens() == old(self).spec_tokens(),
    {
        let step = control_step(cmd);
        if let ControlStep::Write(_) = &step {
            if let Command::Polygon(a) = cmd {
                let mut tokens: Vec<String> = Vec::new();
                std::mem::swap(&mut tokens, &mut self.tokens);
                self.tokens = track(tokens, a.action.as_str(), a.params.as_str());
            }
        }
        step
    }

    /// Advances the session on `e` and says what to do next. No event
    /// changes the connection settings or the subscription set.
    pub fn on_event(&mut self, e: SessionEvent) -> (r: Directive)
        requires
            old(self).wf(),
        ensures
            final(self).wf(),
            final(self).spec_url() == old(self).spec_url(),
            final(self).spec_token() == old(self).spec_token(),
            final(self).spec_tokens() == old(self).spec_tokens(),
            final(self).spec_max_attempts() == old(self).spec_max_attempts(),
            (final(self).spec_phase(), final(self).spec_attempts(), r) == step(
                old(self).spec_phase(),
                old(self).spec_attempts(),
                old(self).spec_max_attempts(),
                e,
            ),
    {
        if let Phase::Failed = self.phase {
            return Directive::Stop;
        }
        match e {
            SessionEvent::Broken | SessionEvent::FatalStatus => {
                self.phase = Phase::Failed;
                Directive::Stop
            },
            SessionEvent::Start => match self.phase {
                Phase::Disconnected => {
                    self.phase = Phase::Connecting;
                    self.attempts = 0;
                    Directive::Open { delay_ms: 0 }
                },
                _ => Directive::Wait,
            },
            SessionEvent::Opened => match self.phase {
                Phase::Connecting | Phase::Reconnecting => {
                    self.phase = Phase::Authenticating;
                    Directive::Authenticate
                },
                _ => Directive::Wait,
            },
            SessionEvent::OpenFailed => match self.phase {
                Phase::Connecting => {
                    self.phase = Phase::Failed;
                    Directive::Stop
                },
                Phase::Reconnecting => self.retry(),
                _ => Directive::Wait,
            },
            SessionEvent::Sent => match self.phase {
                Phase::Authenticating => {
                    self.phase = Phase::Subscribing;
                    Directive::Subscribe
                },
                Phase::Subscribing => {
                    self.phase = Phase::Streaming;
                    self.attempts = 0;
                    Directive::Stream
                },
                _ => Directive::Wait,
            },
            SessionEvent::Lost => match self.phase {
                Phase::Streaming => {
                    self.phase = Phase::Reconnecting;
                    self.attempts = 0;
                    Directive::Open { delay_ms: 0 }
                },
                Phase::Authenticating | Phase::Subscribing | Phase::Reconnecting => self.retry(),
                _ => Directive::Wait,
            },
        }
    }

    fn retry(&mut self) -> (r: Directive)
        requires
            old(self).wf(),
            !(old(self).spec_phase() is Failed),
        ensures
            final(self).wf(),
            final(self).url == old(self).url,
            final(self).token == old(self).token,
            final(self).tokens == old(self).tokens,
            final(self).max_attempts == old(self).max_attempts,
            (final(self).spec_phase(), final(self).spec_attempts(), r) == retry(
                old(self).spec_attempts(),
                old(self).spec_max_attempts(),
            ),
    {
        let delay = backoff(self.attempts);
        self.attempts = self.attempts + 1;
        if self.attempts >= self.max_attempts {
            self.phase = Phase::Failed;
            Directive::Stop
        } else {
            self.phase = Phase::Reconnecting;
            Directive::Open { delay_ms: delay }
        }
    }
}

/// Reconnect resubscription: when the connection is lost while streaming,
/// the session reopens it at once, authenticates, writes the subscribe
/// action again and then streams. That action is `subscribe_action`, whose
/// parameter is the subscription set joined with commas; no event changes
/// that set, so the same pairs are subscribed to as before the loss.
pub proof fn lemma_reconnect_resubscribes(attempts: nat, max: nat)
    ensures
        ({
            let (ph1, a1, d1) = step(Phase::Streaming, attempts, max, SessionEvent::Lost);
            let (ph2, a2, d2) = step(ph1, a1, max, SessionEvent::Opened);
            let (ph3, a3, d3) = step(ph2, a2, max, SessionEvent::Sent);
            let (ph4, a4, d4) = step(ph3, a3, max, SessionEvent::Sent);
            &&& ph1 == Phase::Reconnecting && d1 == Directive::Open { delay_ms: 0 }
            &&& ph2 == Phase::Authenticating && d2 == Directive::Authenticate
            &&& ph3 == Phase::Subscribing && d3 == Directive::Subscribe
            &&& ph4 == Phase::Streaming && d4 == Directive::Stream && a4 == 0
        }),
{
}

} // verus!
