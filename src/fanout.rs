//! What each subscriber is sent: the history in fixed-size chunks, then live
//! events in throttled batches in which consecutive printed text is joined.

use vstd::prelude::*;
use crate::event::{EventV, VteEventDto};
use crate::history::{event_views, extend_print};

verus! {

/// The number of events in each chunk of the history replay.
pub const REPLAY_CHUNK: usize = 100;

/// The time, in milliseconds, between two batches sent to a subscriber.
pub const THROTTLE_MS: u64 = 100;

/// The events of the chunks, one chunk after the other.
pub open spec fn flatten(chunks: Seq<Seq<EventV>>) -> Seq<EventV>
    decreases chunks.len(),
{
    if chunks.len() == 0 {
        Seq::empty()
    } else {
        flatten(chunks.drop_last()) + chunks.last()
    }
}

/// The values of a sequence of chunks.
pub open spec fn chunk_views(chunks: Seq<Vec<VteEventDto>>) -> Seq<Seq<EventV>> {
    chunks.map_values(|c: Vec<VteEventDto>| event_views(c@))
}

/// Every chunk but the last holds exactly `size` events, and the last holds
/// between one and `size`.
pub open spec fn well_chunked(chunks: Seq<Seq<EventV>>, size: nat) -> bool {
    forall|i: int|
        0 <= i < chunks.len() ==> {
            &&& 0 < (#[trigger] chunks[i]).len() <= size
            &&& i < chunks.len() - 1 ==> chunks[i].len() == size
        }
}

/// The history cut into chunks of [`REPLAY_CHUNK`] events, in order.
pub fn replay_chunks(history: &Vec<VteEventDto>) -> (r: Vec<Vec<VteEventDto>>)
    ensures
        flatten(chunk_views(r@)) == event_views(history@),
        well_chunked(chunk_views(r@), REPLAY_CHUNK as nat),
{
    let mut chunks: Vec<Vec<VteEventDto>> = Vec::new();
    let mut current: Vec<VteEventDto> = Vec::new();
    let mut i: usize = 0;
    while i < history.len()
        invariant
            i <= history@.len(),
            flatten(chunk_views(chunks@)) + event_views(current@) == event_views(history@.subrange(0, i as int)),
            well_chunked(chunk_views(chunks@), REPLAY_CHUNK as nat),
            chunks@.len() > 0 ==> chunk_views(chunks@).last().len() == REPLAY_CHUNK,
            current@.len() < REPLAY_CHUNK,
        decreases history@.len() - i,
    {
        let e = history[i].duplicate();
        let ghost before = event_views(current@);
        current.push(e);
        assert(event_views(current@) =~= before.push(e@));
        assert(event_views(history@.subrange(0, i + 1)) =~= event_views(history@.subrange(0, i as int)).push(
            e@,
        ));
        if current.len() == REPLAY_CHUNK {
            let ghost old_chunks = chunk_views(chunks@);
            let mut full: Vec<VteEventDto> = Vec::new();
            std::mem::swap(&mut full, &mut current);
            chunks.push(full);
            assert(chunk_views(chunks@) =~= old_chunks.push(event_views(full@)));
            assert(chunk_views(chunks@).drop_last() =~= old_chunks);
            assert(event_views(current@) =~= Seq::<EventV>::empty());
            assert(flatten(chunk_views(chunks@)) + event_views(current@) =~= flatten(old_chunks) + event_views(
                full@,
            ));
            assert(well_chunked(chunk_views(chunks@), REPLAY_CHUNK as nat)) by {
                assert forall|k: int| 0 <= k < chunk_views(chunks@).len() implies {
                    &&& 0 < (#[trigger] chunk_views(chunks@)[k]).len() <= REPLAY_CHUNK
                    &&& k < chunk_views(chunks@).len() - 1 ==> chunk_views(chunks@)[k].len() == REPLAY_CHUNK
                } by {
                    if k < old_chunks.len() {
                        assert(chunk_views(chunks@)[k] == old_chunks[k]);
                    }
                }
            }
        }
        i = i + 1;
    }
    if current.len() > 0 {
        let ghost old_chunks = chunk_views(chunks@);
        let ghost last = event_views(current@);
        chunks.push(current);
        assert(chunk_views(chunks@) =~= old_chunks.push(last));
        assert(chunk_views(chunks@).drop_last() =~= old_chunks);
        assert(well_chunked(chunk_views(chunks@), REPLAY_CHUNK as nat)) by {
            assert forall|k: int| 0 <= k < chunk_views(chunks@).len() implies {
                &&& 0 < (#[trigger] chunk_views(chunks@)[k]).len() <= REPLAY_CHUNK
                &&& k < chunk_views(chunks@).len() - 1 ==> chunk_views(chunks@)[k].len() == REPLAY_CHUNK
            } by {
                if k < old_chunks.len() {
                    assert(chunk_views(chunks@)[k] == old_chunks[k]);
                }
            }
        }
    } else {
        assert(flatten(chunk_views(chunks@)) + event_views(current@) =~= flatten(chunk_views(chunks@)));
    }
    assert(history@.subrange(0, history@.len() as int) =~= history@);
    chunks
}

/// The text of printed text; nothing for other events.
pub open spec fn print_string(e: EventV) -> Seq<char> {
    match e {
        EventV::Print { string, .. } => string,
        _ => Seq::empty(),
    }
}

/// True when a live event `e` is joined to the last event of `batch`: both
/// are printed text.
pub open spec fn joins(batch: Seq<EventV>, e: EventV) -> bool {
    batch.len() > 0 && batch.last() is Print && e is Print
}

/// `batch` after the live event `e` arrives: printed text that follows printed
/// text is appended to it, whose colours stay; anything else is added.
pub open spec fn add_live(batch: Seq<EventV>, e: EventV) -> Seq<EventV> {
    if joins(batch, e) {
        batch.update(batch.len() - 1, extend_print(batch.last(), print_string(e)))
    } else {
        batch.push(e)
    }
}

/// The state of one subscriber's live stream.
pub struct BatcherV {
    pub batch: Seq<EventV>,
    pub next_send: u64,
}

/// The state after a wake-up at time `now` (in milliseconds), with the live
/// event that arrived, if any, and the batch to send then, if any.
///
/// An event joined to the batch ends the wake-up. Otherwise, once `now` is
/// past the deadline, a non-empty batch is sent and emptied, and the next
/// deadline is [`THROTTLE_MS`] after `now`.
pub open spec fn wake(s: BatcherV, event: Option<EventV>, now: u64) -> (BatcherV, Option<Seq<EventV>>) {
    if event is Some && joins(s.batch, event->0) {
        (BatcherV { batch: add_live(s.batch, event->0), ..s }, None)
    } else {
        let b = match event {
            Some(e) => add_live(s.batch, e),
            None => s.batch,
        };
        if now > s.next_send {
            (
                BatcherV { batch: Seq::empty(), next_send: now.saturating_add(THROTTLE_MS) },
                if b.len() > 0 {
                    Some(b)
                } else {
                    None
                },
            )
        } else {
            (BatcherV { batch: b, next_send: s.next_send }, None)
        }
    }
}

/// One subscriber's live stream: the batch collected since the last send,
/// and the deadline of the next send.
pub struct LiveBatcher {
    batch: Vec<VteEventDto>,
    next_send: u64,
}

impl View for LiveBatcher {
    type V = BatcherV;

    closed spec fn view(&self) -> BatcherV {
        BatcherV { batch: event_views(self.batch@), next_send: self.next_send }
    }
}

impl LiveBatcher {
    /// An empty batch, first sent [`THROTTLE_MS`] after `now`.
    pub fn new(now: u64) -> (r: LiveBatcher)
        ensures
            r@ == (BatcherV { batch: Seq::empty(), next_send: now.saturating_add(THROTTLE_MS) }),
    {
        let r = LiveBatcher { batch: Vec::new(), next_send: now.saturating_add(THROTTLE_MS) };
        assert(r@.batch =~= Seq::<EventV>::empty());
        r
    }

    /// The deadline of the next send, in milliseconds.
    pub fn next_send(&self) -> (r: u64)
        ensures
            r == self@.next_send,
    {
        self.next_send
    }

    fn add(&mut self, e: VteEventDto)
        ensures
            final(self)@ == (BatcherV { batch: add_live(old(self)@.batch, e@), ..old(self)@ }),
    {
        let n = self.batch.len();
        let ghost old_b = self@.batch;
        if n > 0 && matches!(e, VteEventDto::Print { .. }) && matches!(self.batch[n - 1], VteEventDto::Print { .. }) {
            assert(old_b.last() == self.batch@[n - 1]@);
            let last = self.batch.pop().unwrap();
            assert(event_views(self.batch@) =~= old_b.drop_last());
            match (last, e) {
                (VteEventDto::Print { string, color, bg_color }, VteEventDto::Print { string: more, .. }) => {
                    let mut string = string;
                    string.append(more.as_str());
                    let joined = VteEventDto::Print { string, color, bg_color };
                    let ghost b = event_views(self.batch@);
                    self.batch.push(joined);
                    assert(event_views(self.batch@) =~= b.push(joined@));
                },
                _ => {
                    assert(false);
                },
            }
            assert(event_views(self.batch@) =~= add_live(old_b, e@));
        } else {
            let ghost ev = e@;
            self.batch.push(e);
            assert(event_views(self.batch@) =~= old_b.push(ev));
        }
    }

    /// Handles a wake-up at time `now` (in milliseconds), with the live event
    /// that arrived before the deadline, if any; returns the batch to send.
    pub fn on_wake(&mut self, event: Option<VteEventDto>, now: u64) -> (r: Option<Vec<VteEventDto>>)
        ensures
            final(self)@ == wake(old(self)@, match event {
                Some(e) => Some(e@),
                None => None,
            }, now).0,
            match r {
                Some(b) => wake(old(self)@, match event {
                    Some(e) => Some(e@),
                    None => None,
                }, now).1 == Some(event_views(b@)),
                None => wake(old(self)@, match event {
                    Some(e) => Some(e@),
                    None => None,
                }, now).1 is None,
            },
    {
        match event {
            Some(e) => {
                let n = self.batch.len();
                let joined = n > 0 && matches!(e, VteEventDto::Print { .. }) && matches!(
                    self.batch[n - 1],
                    VteEventDto::Print { .. }
                );
                assert(n > 0 ==> self@.batch.last() == self.batch@[n - 1]@);
                self.add(e);
                if joined {
                    return None;
                }
            },
            None => {},
        }
        if now > self.next_send {
            self.next_send = now.saturating_add(THROTTLE_MS);
            if self.batch.len() > 0 {
                let mut out: Vec<VteEventDto> = Vec::new();
                std::mem::swap(&mut out, &mut self.batch);
                assert(event_views(self.batch@) =~= Seq::<EventV>::empty());
                Some(out)
            } else {
                assert(event_views(self.batch@) =~= Seq::<EventV>::empty());
                None
            }
        } else {
            None
        }
    }
}

/// The events with each run of consecutive printed text joined into its
/// first entry, in order.
pub open spec fn coalesce(events: Seq<EventV>) -> Seq<EventV>
    decreases events.len(),
{
    if events.len() == 0 {
        Seq::empty()
    } else {
        add_live(coalesce(events.drop_last()), events.last())
    }
}

/// The state after a sequence of wake-ups, with the batches sent, in order.
pub open spec fn run_wakes(s: BatcherV, wakes: Seq<(Option<EventV>, u64)>) -> (BatcherV, Seq<Seq<EventV>>)
    decreases wakes.len(),
{
    if wakes.len() == 0 {
        (s, Seq::empty())
    } else {
        let (t, sent) = run_wakes(s, wakes.drop_last());
        let (u, out) = wake(t, wakes.last().0, wakes.last().1);
        (
            u,
            match out {
                Some(b) => sent.push(b),
                None => sent,
            },
        )
    }
}

/// The live events received over a sequence of wake-ups, in order.
pub open spec fn received(wakes: Seq<(Option<EventV>, u64)>) -> Seq<EventV>
    decreases wakes.len(),
{
    if wakes.len() == 0 {
        Seq::empty()
    } else {
        match wakes.last().0 {
            Some(e) => received(wakes.drop_last()).push(e),
            None => received(wakes.drop_last()),
        }
    }
}

proof fn lemma_coalesce_add_live(x: Seq<EventV>, b: Seq<EventV>, e: EventV)
    ensures
        coalesce(x + add_live(b, e)) == add_live(coalesce(x + b), e),
{
    if joins(b, e) {
        let n = b.len() - 1;
        let p = b.last();
        let front = b.drop_last();
        let c = coalesce(x + front);
        let joined = extend_print(p, print_string(e));
        assert(x + add_live(b, e) =~= (x + front).push(joined));
        assert((x + front).push(joined).drop_last() =~= x + front);
        assert(x + b =~= (x + front).push(p));
        assert((x + front).push(p).drop_last() =~= x + front);
        assert(coalesce(x + add_live(b, e)) == add_live(c, joined));
        assert(coalesce(x + b) == add_live(c, p));
        if c.len() > 0 && c.last() is Print {
            let m = c.len() - 1;
            let after_p = add_live(c, p);
            assert(after_p.last() == extend_print(c.last(), print_string(p)));
            assert(after_p.len() == c.len());
            assert(print_string(c.last()) + print_string(p) + print_string(e) =~= print_string(c.last()) + (
            print_string(p) + print_string(e)));
            assert(add_live(after_p, e) =~= add_live(c, joined));
        } else {
            assert(add_live(c, p) =~= c.push(p));
            assert(add_live(c, p).last() == p);
            assert(add_live(add_live(c, p), e) =~= add_live(c, joined));
        }
    } else {
        assert(x + add_live(b, e) =~= (x + b).push(e));
        assert((x + b).push(e).drop_last() =~= x + b);
    }
}

proof fn lemma_flatten_push(chunks: Seq<Seq<EventV>>, b: Seq<EventV>)
    ensures
        flatten(chunks.push(b)) == flatten(chunks) + b,
{
    assert(chunks.push(b).drop_last() =~= chunks);
}

proof fn lemma_wakes_keep_content(s: BatcherV, wakes: Seq<(Option<EventV>, u64)>)
    ensures
        coalesce(flatten(run_wakes(s, wakes).1) + run_wakes(s, wakes).0.batch) == coalesce(
            s.batch + received(wakes),
        ),
    decreases wakes.len(),
{
    if wakes.len() == 0 {
        assert(flatten(Seq::<Seq<EventV>>::empty()) + s.batch =~= s.batch + received(wakes));
    } else {
        let prev = wakes.drop_last();
        lemma_wakes_keep_content(s, prev);
        let (t, sent) = run_wakes(s, prev);
        let (ev, now) = wakes.last();
        let f = flatten(sent);
        // the batch after the event, before any send
        let b = match ev {
            Some(e) => add_live(t.batch, e),
            None => t.batch,
        };
        match ev {
            Some(e) => {
                lemma_coalesce_add_live(f, t.batch, e);
                assert(received(wakes) == received(prev).push(e));
                assert(s.batch + received(prev) + seq![e] =~= s.batch + received(wakes));
                assert(coalesce(s.batch + received(wakes)) == add_live(coalesce(s.batch + received(prev)), e)) by {
                    assert(s.batch + received(wakes) =~= (s.batch + received(prev)).push(e));
                    assert((s.batch + received(prev)).push(e).drop_last() =~= s.batch + received(prev));
                }
                assert(coalesce(f + b) == coalesce(s.batch + received(wakes)));
            },
            None => {
                assert(received(wakes) == received(prev));
            },
        }
        let (u, out) = wake(t, ev, now);
        if ev is Some && joins(t.batch, ev->0) {
            assert(run_wakes(s, wakes).1 == sent);
            assert(u.batch == b);
        } else if now > t.next_send {
            if b.len() > 0 {
                lemma_flatten_push(sent, b);
                assert(run_wakes(s, wakes).1 == sent.push(b));
                assert(flatten(sent.push(b)) + u.batch =~= f + b);
            } else {
                assert(run_wakes(s, wakes).1 == sent);
                assert(f + u.batch =~= f + b);
            }
        } else {
            assert(run_wakes(s, wakes).1 == sent);
            assert(u.batch == b);
        }
    }
}

/// Whenever two subscribers wake, the batches they are sent carry the same
/// events: for two runs of wake-ups from an empty batch that receive the same
/// live events, the batches sent, followed by the batch still held, have
/// equal events once consecutive printed text is joined; both equal the
/// received events with printed text joined.
pub proof fn lemma_delivery_independent_of_timing(
    s1: BatcherV,
    wakes1: Seq<(Option<EventV>, u64)>,
    s2: BatcherV,
    wakes2: Seq<(Option<EventV>, u64)>,
)
    requires
        s1.batch.len() == 0,
        s2.batch.len() == 0,
        received(wakes1) == received(wakes2),
    ensures
        coalesce(flatten(run_wakes(s1, wakes1).1) + run_wakes(s1, wakes1).0.batch) == coalesce(received(wakes1)),
        coalesce(flatten(run_wakes(s1, wakes1).1) + run_wakes(s1, wakes1).0.batch) == coalesce(
            flatten(run_wakes(s2, wakes2).1) + run_wakes(s2, wakes2).0.batch,
        ),
{
    lemma_wakes_keep_content(s1, wakes1);
    lemma_wakes_keep_content(s2, wakes2);
    assert(s1.batch + received(wakes1) =~= received(wakes1));
    assert(s2.batch + received(wakes2) =~= received(wakes2));
}

} // verus!
