use vstd::prelude::*;
use crate::message::Message;
use crate::router::{route, submission_of};

verus! {

/// What the transport hands the engine: a decoded message, or one of the
/// ways reading a frame can fail.
#[derive(Debug)]
pub enum Inbound {
    Message(Message),
    /// A frame whose payload could not be decoded.
    Malformed,
    /// The transport reports that no data is available: the connection is lost.
    NoData,
    /// Any other transport error.
    Broken,
}

/// One submission to the broker.
#[derive(Debug)]
pub struct Record {
    pub topic: String,
    pub key: String,
    pub payload: String,
}

impl View for Record {
    type V = (Seq<char>, Seq<char>, Seq<char>);

    open spec fn view(&self) -> (Seq<char>, Seq<char>, Seq<char>) {
        (self.topic@, self.key@, self.payload@)
    }
}

/// A failure that concerns one message and is reported, not fatal.
#[derive(Clone, Copy, Debug, PartialEq, Eq)]
pub enum Fault {
    Decode,
    Delivery,
}

/// What the engine asks its driver to do next.
#[derive(Debug)]
pub enum Step {
    /// Start this submission to the broker.
    Submit(Record),
    /// Report the fault and go on reading.
    Report(Fault),
    /// Go on reading.
    Continue,
    /// Re-establish the upstream session, then go on reading.
    Reconnect,
    /// Stop the pipeline: nothing more is read or submitted.
    Halt(HaltCause),
}

/// Why the pipeline stops.
#[derive(Clone, Copy, Debug, PartialEq, Eq)]
pub enum HaltCause {
    /// The provider sent a fatal status.
    FatalStatus,
    /// The transport failed other than by losing the connection.
    Transport,
    /// The pipeline had already stopped.
    Stopped,
}

/// A frame as the engine met it.
pub enum Arrival {
    Data(Message),
    Malformed,
    NoData,
    Broken,
}

pub open spec fn arrival_of(frame: Inbound) -> Arrival {
    match frame {
        Inbound::Message(m) => Arrival::Data(m),
        Inbound::Malformed => Arrival::Malformed,
        Inbound::NoData => Arrival::NoData,
        Inbound::Broken => Arrival::Broken,
    }
}

/// The arrivals that end the pipeline: a fatal status, or a transport error
/// other than the loss of the connection.
pub open spec fn halts(a: Arrival) -> bool {
    match a {
        Arrival::Data(m) => m.spec_is_fatal(),
        Arrival::Broken => true,
        _ => false,
    }
}

/// The arrivals that become a submission when the pipeline is running:
/// every message but a fatal status.
pub open spec fn forwards(a: Arrival) -> bool {
    match a {
        Arrival::Data(m) => !m.spec_is_fatal(),
        _ => false,
    }
}

pub open spec fn submission_of_arrival(a: Arrival) -> (Seq<char>, Seq<char>, Seq<char>) {
    match a {
        Arrival::Data(m) => submission_of(m),
        _ => (Seq::empty(), Seq::empty(), Seq::empty()),
    }
}

/// Whether the pipeline has stopped after the arrivals `s`.
pub open spec fn halted_after(s: Seq<Arrival>) -> bool
    decreases s.len(),
{
    s.len() > 0 && (halted_after(s.drop_last()) || halts(s.last()))
}

/// The submissions started, in order, for the arrivals `s`.
pub open spec fn submissions(s: Seq<Arrival>) -> Seq<(Seq<char>, Seq<char>, Seq<char>)>
    decreases s.len(),
{
    if s.len() == 0 {
        Seq::empty()
    } else if !halted_after(s.drop_last()) && forwards(s.last()) {
        submissions(s.drop_last()).push(submission_of_arrival(s.last()))
    } else {
        submissions(s.drop_last())
    }
}

/// The relay engine: it routes each decoded message to a broker submission,
/// keeps at most `limit` submissions outstanding, and stops for good on a
/// fatal status or an unrecoverable transport error.
pub struct Engine {
    limit: usize,
    in_flight: usize,
    halted: bool,
    arrivals: Ghost<Seq<Arrival>>,
    completed: Ghost<nat>,
}

impl Engine {
    pub closed spec fn spec_limit(&self) -> nat {
        self.limit as nat
    }

    pub closed spec fn spec_in_flight(&self) -> nat {
        self.in_flight as nat
    }

    /// Every frame met so far, in order.
    pub closed spec fn arrivals(&self) -> Seq<Arrival> {
        self.arrivals@
    }

    /// How many submissions have completed, delivered or not.
    pub closed spec fn completed(&self) -> nat {
        self.completed@
    }

    pub closed spec fn spec_halted(&self) -> bool {
        self.halted
    }

    pub closed spec fn wf(&self) -> bool {
        &&& 0 < self.limit
        &&& self.in_flight <= self.limit
        &&& self.halted == halted_after(self.arrivals@)
        &&& self.in_flight + self.completed@ == submissions(self.arrivals@).len()
    }

    /// An engine that admits at most `limit` outstanding submissions.
    pub fn new(limit: usize) -> (r: Engine)
        requires
            limit > 0,
        ensures
            r.wf(),
            r.spec_limit() == limit,
            r.spec_in_flight() == 0,
            r.arrivals() == Seq::<Arrival>::empty(),
            r.completed() == 0,
            !r.spec_halted(),
    {
        Engine {
            limit,
            in_flight: 0,
            halted: false,
            arrivals: Ghost(Seq::empty()),
            completed: Ghost(0),
        }
    }

    pub fn limit(&self) -> (r: usize)
        ensures
            r == self.spec_limit(),
    {
        self.limit
    }

    pub fn in_flight(&self) -> (r: usize)
        ensures
            r == self.spec_in_flight(),
    {
        self.in_flight
    }

    pub fn is_halted(&self) -> (r: bool)
        ensures
            r == self.spec_halted(),
    {
        self.halted
    }

    /// Whether one more submission may start now.
    pub fn has_capacity(&self) -> (r: bool)
        ensures
            r == (self.spec_in_flight() < self.spec_limit()),
    {
        self.in_flight < self.limit
    }

    /// The outstanding submissions never exceed the bound, and every
    /// submission started is either outstanding or completed.
    pub proof fn lemma_concurrency_bound(&self)
        requires
            self.wf(),
        ensures
            self.spec_in_flight() <= self.spec_limit(),
            self.spec_in_flight() + self.completed() == submissions(self.arrivals()).len(),
            self.spec_halted() == halted_after(self.arrivals()),
    {
    }

    /// Handles the next inbound frame. The driver offers a frame only while a
    /// submission slot is free, so a submission never waits in the engine.
    pub fn on_frame(&mut self, frame: Inbound) -> (r: Step)
        requires
            old(self).wf(),
            old(self).spec_in_flight() < old(self).spec_limit(),
        ensures
            final(self).wf(),
            final(self).spec_limit() == old(self).spec_limit(),
            final(self).completed() == old(self).completed(),
            final(self).spec_halted() == (r is Halt),
            final(self).arrivals() == old(self).arrivals().push(arrival_of(frame)),
            final(self).spec_in_flight() == old(self).spec_in_flight() + if r is Submit {
                1int
            } else {
                0int
            },
            old(self).spec_halted() ==> r == Step::Halt(HaltCause::Stopped),
            !old(self).spec_halted() ==> match frame {
                Inbound::Message(m) => if m.spec_is_fatal() {
                    r == Step::Halt(HaltCause::FatalStatus)
                } else {
                    r matches Step::Submit(rec) && rec@ == submission_of(m)
                },
                Inbound::Malformed => r == Step::Report(Fault::Decode),
                Inbound::NoData => r is Reconnect,
                Inbound::Broken => r == Step::Halt(HaltCause::Transport),
            },
            r matches Step::Submit(rec) ==> frame matches Inbound::Message(m) && rec@
                == submission_of(m),
    {
        let ghost before = self.arrivals@;
        if self.halted {
            proof {
                self.arrivals@ = before.push(arrival_of(frame));
                assert(self.arrivals@.drop_last() == before);
            }
            return Step::Halt(HaltCause::Stopped);
        }
        match frame {
            Inbound::Message(m) => {
                if m.is_fatal() {
                    self.halted = true;
                    proof {
                        self.arrivals@ = before.push(Arrival::Data(m));
                        assert(self.arrivals@.drop_last() == before);
                    }
                    Step::Halt(HaltCause::FatalStatus)
                } else {
                    match route(&m) {
                        Ok(rec) => {
                            self.in_flight = self.in_flight + 1;
                            proof {
                                self.arrivals@ = before.push(Arrival::Data(m));
                                assert(self.arrivals@.drop_last() == before);
                            }
                            Step::Submit(rec)
                        },
                        Err(_) => {
                            proof {
                                assert(false);
                            }
                            Step::Continue
                        },
                    }
                }
            },
            Inbound::Malformed => {
                proof {
                    self.arrivals@ = before.push(Arrival::Malformed);
                    assert(self.arrivals@.drop_last() == before);
                }
                Step::Report(Fault::Decode)
            },
            Inbound::NoData => {
                proof {
                    self.arrivals@ = before.push(Arrival::NoData);
                    assert(self.arrivals@.drop_last() == before);
                }
                Step::Reconnect
            },
            Inbound::Broken => {
                self.halted = true;
                proof {
                    self.arrivals@ = before.push(Arrival::Broken);
                    assert(self.arrivals@.drop_last() == before);
                }
                Step::Halt(HaltCause::Transport)
            },
        }
    }

    /// Handles the completion of one outstanding submission, which frees its
    /// slot. A failed delivery is reported; the pipeline goes on.
    pub fn on_delivery(&mut self, delivered: bool) -> (r: Step)
        requires
            old(self).wf(),
            old(self).spec_in_flight() > 0,
        ensures
            final(self).wf(),
            final(self).spec_limit() == old(self).spec_limit(),
            final(self).arrivals() == old(self).arrivals(),
            final(self).spec_halted() == old(self).spec_halted(),
            final(self).completed() == old(self).completed() + 1,
            final(self).spec_in_flight() == old(self).spec_in_flight() - 1,
            delivered ==> r is Continue,
            !delivered ==> r == Step::Report(Fault::Delivery),
    {
        self.in_flight = self.in_flight - 1;
        self.completed = Ghost(self.completed@ + 1);
        if delivered {
            Step::Continue
        } else {
            Step::Report(Fault::Delivery)
        }
    }
}

/// Frame `i` is turned into a submission: the pipeline was still running
/// when it arrived, and it is a message other than a fatal status.
pub open spec fn forwarded_at(s: Seq<Arrival>, i: int) -> bool {
    !halted_after(s.take(i)) && forwards(s[i])
}

/// The place of frame `i`'s submission among all submissions.
pub open spec fn position(s: Seq<Arrival>, i: int) -> int {
    submissions(s.take(i)).len() as int
}

/// What is submitted for a prefix of the frames is a prefix of what is
/// submitted for all of them.
pub proof fn lemma_submissions_prefix(s: Seq<Arrival>, k: int)
    requires
        0 <= k <= s.len(),
    ensures
        submissions(s.take(k)).len() <= submissions(s).len(),
        submissions(s).take(submissions(s.take(k)).len() as int) == submissions(s.take(k)),
    decreases s.len(),
{
    if k == s.len() {
        assert(s.take(k) == s);
        assert(submissions(s).take(submissions(s).len() as int) == submissions(s));
    } else {
        let d = s.drop_last();
        lemma_submissions_prefix(d, k);
        assert(d.take(k) == s.take(k));
        let n = submissions(s.take(k)).len() as int;
        if !halted_after(d) && forwards(s.last()) {
            assert(submissions(s).take(n) == submissions(d).take(n));
        }
    }
}

/// Submissions start in the order in which their frames arrived: of two
/// forwarded frames, in particular two that share a partition key, the
/// earlier one's submission comes first, and each submission is the
/// frame's own topic, key and payload.
pub proof fn lemma_arrival_order_kept(s: Seq<Arrival>, i: int, j: int)
    requires
        0 <= i < j < s.len(),
        forwarded_at(s, i),
        forwarded_at(s, j),
    ensures
        position(s, i) < position(s, j) < submissions(s).len(),
        submissions(s)[position(s, i)] == submission_of_arrival(s[i]),
        submissions(s)[position(s, j)] == submission_of_arrival(s[j]),
{
    assert(s.take(i + 1).drop_last() == s.take(i));
    assert(s.take(j + 1).drop_last() == s.take(j));
    assert(s.take(i + 1).last() == s[i]);
    assert(s.take(j + 1).last() == s[j]);
    lemma_submissions_prefix(s, i + 1);
    lemma_submissions_prefix(s, j + 1);
    lemma_submissions_prefix(s.take(j), i + 1);
    assert(s.take(j).take(i + 1) == s.take(i + 1));
    let ti = submissions(s.take(i + 1));
    let tj = submissions(s.take(j + 1));
    assert(submissions(s).take(ti.len() as int)[position(s, i)] == ti[position(s, i)]);
    assert(submissions(s).take(tj.len() as int)[position(s, j)] == tj[position(s, j)]);
}

/// Once a fatal status arrives, the pipeline is stopped and nothing more is
/// submitted: the submissions are those of the frames before it.
pub proof fn lemma_fatal_status_ends_submissions(s: Seq<Arrival>, k: int)
    requires
        0 <= k < s.len(),
        s[k] matches Arrival::Data(m) && m.spec_is_fatal(),
    ensures
        halted_after(s),
        submissions(s) == submissions(s.take(k)),
    decreases s.len(),
{
    let d = s.drop_last();
    if k == s.len() - 1 {
        assert(d == s.take(k));
    } else {
        lemma_fatal_status_ends_submissions(d, k);
        assert(d.take(k) == s.take(k));
    }
}

/// A malformed frame changes nothing: the frames around it are submitted
/// exactly as if it had not arrived.
pub proof fn lemma_malformed_frame_skipped(a: Seq<Arrival>, b: Seq<Arrival>)
    ensures
        submissions(a.push(Arrival::Malformed) + b) == submissions(a + b),
        halted_after(a.push(Arrival::Malformed) + b) == halted_after(a + b),
    decreases b.len(),
{
    if b.len() == 0 {
        assert(a.push(Arrival::Malformed) + b == a.push(Arrival::Malformed));
        assert(a + b == a);
        assert(a.push(Arrival::Malformed).drop_last() == a);
    } else {
        let c = b.drop_last();
        lemma_malformed_frame_skipped(a, c);
        assert((a.push(Arrival::Malformed) + b).drop_last() == a.push(Arrival::Malformed) + c);
        assert((a + b).drop_last() == a + c);
        assert((a.push(Arrival::Malformed) + b).last() == b.last());
        assert((a + b).last() == b.last());
    }
}

} // verus!
