//! The relay between client and upstream: what each direction has carried, how the
//! client's writes are passed on, and when the relay is over.

use crate::config::TlsFragPackets;
use crate::flow::BypassOutcome;
use crate::methods::TcpSegmentation;
use crate::proxy::{RelayEndReason, RelayResult};
use crate::session::{
    plan_of, write_client_data, ClientRead, Fragmentation, InterceptPhase, InterceptSession,
    SegmentSession, SessionEvent, WritePlan,
};
use vstd::prelude::*;

verus! {

/// What has happened in a relay.
#[derive(Debug, Clone, Copy, PartialEq, Eq, Structural)]
pub enum RelayEvent {
    /// The relay has reached its greatest age. So many bytes have been carried by now.
    Deadline { c2s_bytes: u64, s2c_bytes: u64 },
    /// The direction to the upstream has ended, after so many bytes; it has no number
    /// if it did not end by itself.
    ToServerEnded(Option<u64>),
    /// The direction to the client has ended, likewise.
    ToClientEnded(Option<u64>),
}

/// What is to be done in a relay.
#[derive(Debug, Clone, Copy, PartialEq, Eq, Structural)]
pub enum RelayStep {
    Wait,
    /// The relay is over. The directions marked here are to be stopped.
    Done { result: RelayResult, stop_to_server: bool, stop_to_client: bool },
}

/// The bytes of the directions that have ended.
#[derive(Debug, Clone, Copy, PartialEq, Eq, Structural)]
pub struct RelayWatch {
    pub c2s_done: Option<u64>,
    pub s2c_done: Option<u64>,
}

pub open spec fn value_or(x: Option<u64>, other: u64) -> u64 {
    match x {
        Some(v) => v,
        None => other,
    }
}

fn or_else(x: Option<u64>, other: u64) -> (r: u64)
    ensures
        r == value_or(x, other),
{
    match x {
        Some(v) => v,
        None => other,
    }
}

impl RelayWatch {
    pub fn new() -> (r: RelayWatch)
        ensures
            r == (RelayWatch { c2s_done: None, s2c_done: None }),
    {
        RelayWatch { c2s_done: None, s2c_done: None }
    }

    /// The event can still happen: a direction ends once, and the relay is over when
    /// both have.
    pub open spec fn expects(self, e: RelayEvent) -> bool {
        match e {
            RelayEvent::Deadline { .. } => self.c2s_done is None || self.s2c_done is None,
            RelayEvent::ToServerEnded(_) => self.c2s_done is None,
            RelayEvent::ToClientEnded(_) => self.s2c_done is None,
        }
    }

    /// Done if both directions have ended.
    pub open spec fn completed(self) -> RelayStep {
        match (self.c2s_done, self.s2c_done) {
            (Some(c2s_bytes), Some(s2c_bytes)) => RelayStep::Done {
                result: RelayResult { c2s_bytes, s2c_bytes, reason: RelayEndReason::Completed },
                stop_to_server: false,
                stop_to_client: false,
            },
            _ => RelayStep::Wait,
        }
    }

    pub open spec fn next(self, e: RelayEvent) -> (RelayWatch, RelayStep) {
        match e {
            RelayEvent::Deadline { c2s_bytes, s2c_bytes } => (
                self,
                RelayStep::Done {
                    result: RelayResult {
                        c2s_bytes: value_or(self.c2s_done, c2s_bytes),
                        s2c_bytes: value_or(self.s2c_done, s2c_bytes),
                        reason: RelayEndReason::MaxLifetime,
                    },
                    stop_to_server: self.c2s_done is None,
                    stop_to_client: self.s2c_done is None,
                },
            ),
            RelayEvent::ToServerEnded(bytes) => {
                let after = RelayWatch { c2s_done: Some(value_or(bytes, 0)), ..self };
                (after, after.completed())
            },
            RelayEvent::ToClientEnded(bytes) => {
                let after = RelayWatch { s2c_done: Some(value_or(bytes, 0)), ..self };
                (after, after.completed())
            },
        }
    }

    fn when_both_ended(&self) -> (r: RelayStep)
        ensures
            r == self.completed(),
    {
        match (self.c2s_done, self.s2c_done) {
            (Some(c2s_bytes), Some(s2c_bytes)) => RelayStep::Done {
                result: RelayResult { c2s_bytes, s2c_bytes, reason: RelayEndReason::Completed },
                stop_to_server: false,
                stop_to_client: false,
            },
            _ => RelayStep::Wait,
        }
    }

    /// Takes an event and answers whether the relay is over.
    pub fn step(&mut self, e: RelayEvent) -> (r: RelayStep)
        requires
            old(self).expects(e),
        ensures
            (*final(self), r) == old(self).next(e),
    {
        match e {
            RelayEvent::Deadline { c2s_bytes, s2c_bytes } => RelayStep::Done {
                result: RelayResult {
                    c2s_bytes: or_else(self.c2s_done, c2s_bytes),
                    s2c_bytes: or_else(self.s2c_done, s2c_bytes),
                    reason: RelayEndReason::MaxLifetime,
                },
                stop_to_server: self.c2s_done.is_none(),
                stop_to_client: self.s2c_done.is_none(),
            },
            RelayEvent::ToServerEnded(bytes) => {
                self.c2s_done = Some(or_else(bytes, 0));
                self.when_both_ended()
            },
            RelayEvent::ToClientEnded(bytes) => {
                self.s2c_done = Some(or_else(bytes, 0));
                self.when_both_ended()
            },
        }
    }
}

/// A relay whose directions both end is over with the second end, whichever that is, and
/// its result is the same in either order.
pub proof fn law_ends_commute(watch: RelayWatch, c2s: Option<u64>, s2c: Option<u64>)
    requires
        watch.c2s_done is None,
        watch.s2c_done is None,
    ensures
        ({
            let server_first = watch.next(RelayEvent::ToServerEnded(c2s));
            let client_first = watch.next(RelayEvent::ToClientEnded(s2c));
            &&& server_first.1 == RelayStep::Wait
            &&& client_first.1 == RelayStep::Wait
            &&& server_first.0.next(RelayEvent::ToClientEnded(s2c)) == client_first.0.next(
                RelayEvent::ToServerEnded(c2s),
            )
            &&& server_first.0.next(RelayEvent::ToClientEnded(s2c)).1 == RelayStep::Done {
                result: RelayResult {
                    c2s_bytes: value_or(c2s, 0),
                    s2c_bytes: value_or(s2c, 0),
                    reason: RelayEndReason::Completed,
                },
                stop_to_server: false,
                stop_to_client: false,
            }
        }),
{
}

/// A relay that reaches its greatest age stops exactly the directions that still run, and
/// keeps the number of one that has ended.
pub proof fn law_deadline_stops_what_runs(watch: RelayWatch, c2s_bytes: u64, s2c_bytes: u64)
    requires
        watch.expects(RelayEvent::Deadline { c2s_bytes, s2c_bytes }),
    ensures
        ({
            let step = watch.next(RelayEvent::Deadline { c2s_bytes, s2c_bytes }).1;
            &&& step is Done
            &&& step->result.reason == RelayEndReason::MaxLifetime
            &&& step->stop_to_server <==> watch.c2s_done is None
            &&& step->stop_to_client <==> watch.s2c_done is None
            &&& watch.c2s_done is Some ==> Some(step->result.c2s_bytes) == watch.c2s_done
            &&& watch.s2c_done is Some ==> Some(step->result.s2c_bytes) == watch.s2c_done
            &&& watch.c2s_done is None ==> step->result.c2s_bytes == c2s_bytes
            &&& watch.s2c_done is None ==> step->result.s2c_bytes == s2c_bytes
        }),
{
}

/// What is done with a read in one direction.
#[derive(Debug, Clone, Copy, PartialEq, Eq, Structural)]
pub enum CopyAction {
    /// The direction is over.
    Stop,
    /// Write the first `n` bytes.
    Write { n: usize, plan: WritePlan },
}

/// One direction of a relay.
#[derive(Debug, Clone, Copy, PartialEq, Eq, Structural)]
pub struct Copying {
    /// The bytes passed on.
    pub total: u64,
    /// The number of the last write.
    pub last_write: u32,
    pub segmentation: Option<TcpSegmentation>,
}

/// The number after `n`, which does not go past its greatest value.
pub open spec fn next_number(n: u32) -> u32 {
    if n < u32::MAX {
        (n + 1) as u32
    } else {
        n
    }
}

impl Copying {
    /// The direction to the upstream under the fragmentation, or a direction without one.
    pub open spec fn starts(fragmentation: Option<Fragmentation>) -> Copying {
        match fragmentation {
            Some(f) => Copying {
                total: 0,
                last_write: f.last_write,
                segmentation: Some(f.segmentation),
            },
            None => Copying { total: 0, last_write: 0, segmentation: None },
        }
    }

    pub fn new(fragmentation: Option<Fragmentation>) -> (r: Copying)
        ensures
            r == Copying::starts(fragmentation),
    {
        match fragmentation {
            Some(f) => Copying {
                total: 0,
                last_write: f.last_write,
                segmentation: Some(f.segmentation),
            },
            None => Copying { total: 0, last_write: 0, segmentation: None },
        }
    }

    /// How the write of the given number is made.
    pub open spec fn plan(self, number: u32) -> WritePlan {
        match self.segmentation {
            Some(segmentation) => plan_of(segmentation, number),
            None => WritePlan::Whole,
        }
    }

    pub open spec fn counting(self) -> Copying {
        Copying { last_write: next_number(self.last_write), ..self }
    }

    /// The direction after a read, and what is done with it.
    pub open spec fn reading(self, read: Option<usize>) -> (Copying, CopyAction) {
        match read {
            Some(n) if n > 0 => (
                self.counting(),
                CopyAction::Write { n, plan: self.plan(next_number(self.last_write)) },
            ),
            _ => (self, CopyAction::Stop),
        }
    }

    /// The direction after a write, and whether it goes on.
    pub open spec fn writing(self, n: usize, ok: bool) -> (Copying, bool) {
        if ok {
            (Copying { total: (self.total + n) as u64, ..self }, true)
        } else {
            (self, false)
        }
    }

    /// Takes the number of bytes of a read, or nothing if it failed.
    pub fn on_read(&mut self, read: Option<usize>) -> (r: CopyAction)
        ensures
            (*final(self), r) == old(self).reading(read),
            match read {
                Some(n) if n > 0 => {
                    &&& *final(self) == old(self).counting()
                    &&& r == CopyAction::Write {
                        n,
                        plan: old(self).plan(next_number(old(self).last_write)),
                    }
                },
                _ => *final(self) == *old(self) && r == CopyAction::Stop,
            },
    {
        let n: usize = match read {
            Some(n) => n,
            None => {
                return CopyAction::Stop;
            },
        };
        if n == 0 {
            return CopyAction::Stop;
        }
        self.last_write = self.last_write.saturating_add(1);
        let plan = match self.segmentation {
            Some(segmentation) => write_client_data(&segmentation, self.last_write),
            None => WritePlan::Whole,
        };
        CopyAction::Write { n, plan }
    }

    /// Takes the end of a write of `n` bytes and answers whether the direction goes on.
    pub fn on_written(&mut self, n: usize, ok: bool) -> (r: bool)
        requires
            old(self).total + n <= u64::MAX,
        ensures
            (*final(self), r) == old(self).writing(n, ok),
            r == ok,
            *final(self) == (if ok {
                Copying { total: (old(self).total + n) as u64, ..*old(self) }
            } else {
                *old(self)
            }),
    {
        if ok {
            self.total = self.total + n as u64;
        }
        ok
    }

    /// The state after reads of these sizes that were all written.
    pub open spec fn passed(self, sizes: Seq<usize>) -> Copying
        decreases sizes.len(),
    {
        if sizes.len() == 0 {
            self
        } else {
            let before = self.passed(sizes.drop_last()).counting();
            Copying { total: (before.total + sizes.last()) as u64, ..before }
        }
    }
}

/// The sum of the sizes.
pub open spec fn sum(sizes: Seq<usize>) -> int
    decreases sizes.len(),
{
    if sizes.len() == 0 {
        0
    } else {
        sum(sizes.drop_last()) + sizes.last()
    }
}

/// A direction counts every byte that it passes on, and numbers its writes in a row.
pub proof fn law_every_byte_counts(start: Copying, sizes: Seq<usize>)
    requires
        start.total + sum(sizes) <= u64::MAX,
    ensures
        start.passed(sizes).total == start.total + sum(sizes),
        start.passed(sizes).last_write == (if start.last_write + sizes.len() <= u32::MAX {
            start.last_write + sizes.len()
        } else {
            u32::MAX as int
        }),
        start.passed(sizes).segmentation == start.segmentation,
    decreases sizes.len(),
{
    if sizes.len() > 0 {
        law_every_byte_counts(start, sizes.drop_last());
    }
}

/// Under a segmentation the writes of a direction go by their numbers: after so many
/// writes the next one is made as its number says, until the numbers have run out.
pub proof fn law_writes_go_by_number(start: Copying, sizes: Seq<usize>, segmentation: TcpSegmentation)
    requires
        start.segmentation == Some(segmentation),
        start.total + sum(sizes) <= u64::MAX,
        start.last_write + sizes.len() + 1 <= u32::MAX,
    ensures
        ({
            let before = start.passed(sizes);
            let number = (start.last_write + sizes.len() + 1) as u32;
            &&& before.counting().last_write == number
            &&& before.plan(next_number(before.last_write)) == plan_of(segmentation, number)
        }),
{
    law_every_byte_counts(start, sizes);
}

/// A direction under a fragmentation starts with nothing carried and with the number of the
/// client's last write, and its k-th write is the k-th one after that: it goes out in
/// pieces exactly where the range of writes holds its number.
pub proof fn law_relay_numbers_from_the_last_write(f: Fragmentation, sizes: Seq<usize>, n: usize)
    requires
        n > 0,
        sum(sizes) <= u64::MAX,
        f.last_write + sizes.len() + 1 <= u32::MAX,
    ensures
        Copying::starts(Some(f)).total == 0,
        Copying::starts(Some(f)).last_write == f.last_write,
        Copying::starts(Some(f)).segmentation == Some(f.segmentation),
        ({
            let number = f.last_write + sizes.len() + 1;
            Copying::starts(Some(f)).passed(sizes).reading(Some(n)).1 == CopyAction::Write {
                n,
                plan: match f.segmentation.packets {
                    TlsFragPackets::WriteRange { start, end } => if start <= number && number
                        <= end {
                        WritePlan::Fragmented {
                            length: f.segmentation.length,
                            interval_ms: f.segmentation.interval_ms,
                        }
                    } else {
                        WritePlan::WholeAndFlush
                    },
                    TlsFragPackets::TlsHello => WritePlan::WholeAndFlush,
                },
            }
        }),
{
    law_every_byte_counts(Copying::starts(Some(f)), sizes);
}

/// A direction without a fragmentation passes every write on as it is, and counts its bytes
/// from zero.
pub proof fn law_plain_direction_leaves_writes_whole(sizes: Seq<usize>, n: usize)
    requires
        n > 0,
        sum(sizes) <= u64::MAX,
    ensures
        Copying::starts(None).passed(sizes).total == sum(sizes),
        Copying::starts(None).passed(sizes).reading(Some(n)).1 == (CopyAction::Write {
            n,
            plan: WritePlan::Whole,
        }),
{
    law_every_byte_counts(Copying::starts(None), sizes);
}

/// Where a range of writes is fragmented, exactly the client's writes of that range go out
/// in pieces, counted from the first one of the connection: on a connection without
/// interception the relay makes all of them, and on an intercepted one all but the first.
pub proof fn law_exactly_the_chosen_writes_are_fragmented(
    segmented: SegmentSession,
    intercepted: InterceptSession,
    e: SessionEvent,
    sizes: Seq<usize>,
    n: usize,
    start: u32,
    end: u32,
)
    requires
        n > 0,
        sum(sizes) <= u64::MAX,
        sizes.len() + 2 <= u32::MAX,
    ensures
        segmented.segmentation.packets == (TlsFragPackets::WriteRange { start, end })
            && segmented.expects(e) && segmented.next(e).1.action is Relay ==> {
            let relayed = Copying::starts(segmented.next(e).1.action->fragmentation).passed(sizes);
            let number = sizes.len() + 1;
            &&& relayed.reading(Some(n)).1 is Write
            &&& relayed.reading(Some(n)).1->plan is Fragmented <==> start <= number && number
                <= end
        },
        intercepted.settings.tcp_segmentation.packets == (TlsFragPackets::WriteRange { start, end })
            && intercepted.phase == InterceptPhase::ReadingData ==> {
            let (writing, write) = intercepted.next(SessionEvent::Client(ClientRead::Data));
            let waiting = writing.next(SessionEvent::Written(true)).0;
            let passed = waiting.next(
                SessionEvent::Completion(Some(BypassOutcome::FakeDataAcked)),
            ).1;
            let relayed = Copying::starts(passed.action->fragmentation).passed(sizes);
            let number = sizes.len() + 2;
            &&& write.action is Write && passed.action is Relay
            &&& write.action->Write_0 is Fragmented <==> start <= 1 && 1 <= end
            &&& relayed.reading(Some(n)).1 is Write
            &&& relayed.reading(Some(n)).1->plan is Fragmented <==> start <= number && number
                <= end
        },
{
    let whole = Fragmentation { segmentation: segmented.segmentation, last_write: 0 };
    law_relay_numbers_from_the_last_write(whole, sizes, n);
    let rest = Fragmentation {
        segmentation: intercepted.settings.tcp_segmentation,
        last_write: 1,
    };
    law_relay_numbers_from_the_last_write(rest, sizes, n);
}

/// A direction that has ended counts with its bytes, and with none if it did not end by
/// itself; the relay is over exactly when both have ended or its time is up. A direction
/// ends once, and its number is never changed afterwards.
pub proof fn law_relay_result(watch: RelayWatch, e: RelayEvent)
    ensures
        watch.expects(e) <==> match e {
            RelayEvent::ToServerEnded(_) => watch.c2s_done is None,
            RelayEvent::ToClientEnded(_) => watch.s2c_done is None,
            RelayEvent::Deadline { .. } => !(watch.c2s_done is Some && watch.s2c_done is Some),
        },
        ({
            let (after, step) = watch.next(e);
            &&& match e {
                RelayEvent::ToServerEnded(Some(n)) => after.c2s_done == Some(n),
                RelayEvent::ToServerEnded(None) => after.c2s_done == Some(0u64),
                _ => after.c2s_done == watch.c2s_done,
            }
            &&& match e {
                RelayEvent::ToClientEnded(Some(n)) => after.s2c_done == Some(n),
                RelayEvent::ToClientEnded(None) => after.s2c_done == Some(0u64),
                _ => after.s2c_done == watch.s2c_done,
            }
            &&& step is Done <==> e is Deadline || (after.c2s_done is Some && after.s2c_done
                is Some)
            &&& step is Done && !(e is Deadline) ==> {
                &&& Some(step->result.c2s_bytes) == after.c2s_done
                &&& Some(step->result.s2c_bytes) == after.s2c_done
                &&& step->result.reason == RelayEndReason::Completed
                &&& !step->stop_to_server && !step->stop_to_client
            }
        }),
{
}

/// A read that brings bytes is written, all of them and under the next number; numbers do
/// not go past their greatest value.
pub proof fn law_numbers_go_up_by_one(copying: Copying)
    ensures
        copying.counting().total == copying.total,
        copying.counting().segmentation == copying.segmentation,
        copying.last_write < u32::MAX ==> next_number(copying.last_write) == copying.last_write + 1,
        copying.last_write == u32::MAX ==> next_number(copying.last_write) == u32::MAX,
        copying.counting().last_write == next_number(copying.last_write),
{
}

/// One direction at work, read by read. A read that fails or brings nothing ends it. Any
/// other one is written, all of it, and is the next one in number; it counts once it has
/// been written, and a write that fails ends the direction without counting.
pub proof fn law_every_read_is_written(copying: Copying, read: Option<usize>, ok: bool)
    ensures
        ({
            let (after, action) = copying.reading(read);
            &&& action == CopyAction::Stop <==> read is None || read == Some(0usize)
            &&& action == CopyAction::Stop ==> after == copying
            &&& action matches CopyAction::Write { n, plan } ==> {
                let (done, goes_on) = after.writing(n, ok);
                &&& read == Some(n)
                &&& after.total == copying.total
                &&& after.segmentation == copying.segmentation
                &&& copying.last_write < u32::MAX ==> after.last_write == copying.last_write + 1
                &&& copying.last_write == u32::MAX ==> after.last_write == u32::MAX
                &&& goes_on <==> ok
                &&& done.last_write == after.last_write
                &&& done.segmentation == copying.segmentation
                &&& copying.total + n <= u64::MAX ==> done.total == (if ok {
                    copying.total + n
                } else {
                    copying.total as int
                })
                &&& match copying.segmentation {
                    None => plan == WritePlan::Whole,
                    Some(seg) => match seg.packets {
                        TlsFragPackets::TlsHello => plan == WritePlan::WholeAndFlush,
                        TlsFragPackets::WriteRange { start, end } => plan == (if start
                            <= after.last_write && after.last_write <= end {
                            WritePlan::Fragmented {
                                length: seg.length,
                                interval_ms: seg.interval_ms,
                            }
                        } else {
                            WritePlan::WholeAndFlush
                        }),
                    },
                }
            }
        }),
{
}

/// The state after reads that were all written is the one that the reads and writes lead to,
/// one after the other.
pub proof fn law_passed_is_read_and_written(start: Copying, sizes: Seq<usize>, n: usize)
    requires
        n > 0,
    ensures
        start.passed(Seq::empty()) == start,
        start.passed(sizes.push(n)) == start.passed(sizes).reading(Some(n)).0.writing(n, true).0,
{
    assert(sizes.push(n).drop_last() =~= sizes);
}

} // verus!
