//! The decisions of the streaming bridge: how many items a pump asks for at
//! a time, what it sends of a batch, and whether a further synchronous stream
//! may start.

use vstd::prelude::*;

verus! {

/// The media type of a stream of server-sent events.
pub const EVENT_STREAM: &'static str = "text/event-stream";

/// How many consecutive batches may stay under-filled before the batch size
/// is halved.
pub const UNDER_FILLED_LIMIT: u8 = 3;

/// The size of the batches that an asynchronous pump asks for. It adapts to
/// the source: a full batch doubles it, three under-filled batches in a row
/// halve it, and it stays between its least and its greatest value.
pub struct BatchSizer {
    size: usize,
    least: usize,
    most: usize,
    under_filled: u8,
}

/// The model of a `BatchSizer`.
pub struct SizerModel {
    pub size: nat,
    pub least: nat,
    pub most: nat,
    pub under_filled: nat,
}

/// The sizer after a batch that produced `produced` items.
pub open spec fn after_batch(s: SizerModel, produced: nat) -> SizerModel {
    if produced >= s.size {
        SizerModel {
            size: if s.size * 2 > s.most {
                s.most
            } else {
                s.size * 2
            },
            least: s.least,
            most: s.most,
            under_filled: 0,
        }
    } else if s.under_filled + 1 >= UNDER_FILLED_LIMIT {
        SizerModel {
            size: if s.size / 2 < s.least {
                s.least
            } else {
                s.size / 2
            },
            least: s.least,
            most: s.most,
            under_filled: 0,
        }
    } else {
        SizerModel {
            size: s.size,
            least: s.least,
            most: s.most,
            under_filled: s.under_filled + 1,
        }
    }
}

impl View for BatchSizer {
    type V = SizerModel;

    closed spec fn view(&self) -> SizerModel {
        SizerModel {
            size: self.size as nat,
            least: self.least as nat,
            most: self.most as nat,
            under_filled: self.under_filled as nat,
        }
    }
}

impl BatchSizer {
    /// The batch size stays within its bounds, and the count of under-filled
    /// batches below its limit.
    #[verifier::type_invariant]
    spec fn well_formed(&self) -> bool {
        1 <= self.least <= self.size <= self.most && self.under_filled < UNDER_FILLED_LIMIT
    }

    /// A sizer that starts at `initial`, brought into the bounds. A least
    /// size of zero counts as one, and a greatest size below the least as the
    /// least.
    pub fn new(initial: usize, least: usize, most: usize) -> (s: Self)
        ensures
            s@.least == (if least < 1 {
                1
            } else {
                least as nat
            }),
            s@.most == (if most as nat <= s@.least {
                s@.least
            } else {
                most as nat
            }),
            s@.size == (if initial as nat <= s@.least {
                s@.least
            } else if initial as nat >= s@.most {
                s@.most
            } else {
                initial as nat
            }),
            s@.under_filled == 0,
            s@.least <= s@.size <= s@.most,
    {
        let least: usize = if least < 1 { 1 } else { least };
        let most: usize = if most <= least { least } else { most };
        let size: usize = if initial <= least {
            least
        } else if initial >= most {
            most
        } else {
            initial
        };
        BatchSizer { size, least, most, under_filled: 0 }
    }

    /// The number of items to ask for next.
    pub fn size(&self) -> (n: usize)
        ensures
            n == self@.size,
            self@.least <= n <= self@.most,
            n >= 1,
    {
        proof {
            use_type_invariant(self);
        }
        self.size
    }

    /// Records how many items the last batch produced.
    pub fn record(&mut self, produced: usize)
        ensures
            final(self)@ == after_batch(old(self)@, produced as nat),
            final(self)@.least <= final(self)@.size <= final(self)@.most,
    {
        proof {
            use_type_invariant(&*self);
        }
        if produced >= self.size {
            let doubled: usize = if self.size > self.most / 2 {
                self.most
            } else {
                self.size * 2
            };
            let next = BatchSizer {
                size: doubled,
                least: self.least,
                most: self.most,
                under_filled: 0,
            };
            *self = next;
        } else if self.under_filled + 1 >= UNDER_FILLED_LIMIT {
            let halved: usize = if self.size / 2 < self.least {
                self.least
            } else {
                self.size / 2
            };
            let next = BatchSizer {
                size: halved,
                least: self.least,
                most: self.most,
                under_filled: 0,
            };
            *self = next;
        } else {
            let next = BatchSizer {
                size: self.size,
                least: self.least,
                most: self.most,
                under_filled: self.under_filled + 1,
            };
            *self = next;
        }
    }
}

/// Whether a further synchronous stream may start: only while fewer threads
/// serve such streams than the ceiling allows. Otherwise the stream is
/// refused with 503.
pub fn admit_sync_stream(active: u64, ceiling: u64) -> (admitted: bool)
    ensures
        admitted == (active < ceiling),
{
    active < ceiling
}

/// Whether a media type is that of server-sent events.
pub fn is_event_stream(media_type: &str) -> (r: bool)
    ensures
        r == (media_type@ == EVENT_STREAM@),
{
    media_type.eq(EVENT_STREAM)
}

/// What a pump has for one item that it asked of the source: the bytes of
/// the item, or nothing if the source had no further item or the item cannot
/// be written as bytes.
pub type Pulled = Seq<Option<Seq<u8>>>;

/// The model of the items of a batch.
pub open spec fn pulled_view(items: Seq<Option<Vec<u8>>>) -> Pulled {
    Seq::new(
        items.len(),
        |i: int|
            match items[i] {
                Some(bytes) => Some(bytes@),
                None => None,
            },
    )
}

/// The model of a list of chunks.
pub open spec fn chunk_views(chunks: Seq<Vec<u8>>) -> Seq<Seq<u8>> {
    Seq::new(chunks.len(), |i: int| chunks[i]@)
}

/// The chunks that are sent of a run of items: those before the first item
/// that is missing, in their order.
pub open spec fn sent_of(items: Pulled) -> Seq<Seq<u8>>
    decreases items.len(),
{
    if items.len() == 0 {
        Seq::empty()
    } else {
        match items[0] {
            Some(bytes) => seq![bytes] + sent_of(items.skip(1)),
            None => Seq::empty(),
        }
    }
}

/// Whether an item of the run is missing.
pub open spec fn has_gap(items: Pulled) -> bool {
    exists|i: int| 0 <= i < items.len() && (#[trigger] items[i]) is None
}

/// Decides what a pump does with a batch for which it asked `wanted` items:
/// the chunks before the first missing item are sent in their order, and the
/// stream ends if an item is missing or the batch is short.
pub fn plan_batch(items: Vec<Option<Vec<u8>>>, wanted: usize) -> (r: (Vec<Vec<u8>>, bool))
    ensures
        chunk_views(r.0@) == sent_of(pulled_view(items@)),
        r.1 == (has_gap(pulled_view(items@)) || items@.len() < wanted),
{
    let ghost all = pulled_view(items@);
    let short = items.len() < wanted;
    let mut chunks: Vec<Vec<u8>> = Vec::new();
    let mut rest = items;
    let mut i: usize = 0;
    assert(chunk_views(chunks@) =~= Seq::<Seq<u8>>::empty());
    assert(all.skip(0) =~= all);
    while i < rest.len()
        invariant
            i <= rest.len(),
            all == pulled_view(items@),
            all.len() == rest.len(),
            forall|j: int| i <= j < rest.len() ==> all[j] == pulled_view(rest@)[j],
            forall|j: int| 0 <= j < i ==> (#[trigger] all[j]) is Some,
            chunk_views(chunks@) + sent_of(all.skip(i as int)) == sent_of(all),
        decreases rest.len() - i,
    {
        let ghost before = chunk_views(chunks@);
        assert(all[i as int] == pulled_view(rest@)[i as int]);
        let item = rest[i].take();
        proof {
            assert(all.skip(i as int)[0] == all[i as int]);
            assert(all.skip(i as int).skip(1) =~= all.skip(i + 1));
        }
        match item {
            Some(bytes) => {
                chunks.push(bytes);
                proof {
                    assert(chunk_views(chunks@) =~= before + seq![bytes@]);
                    assert(before + (seq![bytes@] + sent_of(all.skip(i + 1))) =~= (before + seq![
                        bytes@,
                    ]) + sent_of(all.skip(i + 1)));
                }
            },
            None => {
                proof {
                    assert(all[i as int] is None);
                    assert(chunk_views(chunks@) + Seq::<Seq<u8>>::empty() =~= chunk_views(chunks@));
                }
                return (chunks, true);
            },
        }
        i += 1;
    }
    proof {
        assert(all.skip(rest.len() as int) =~= Pulled::empty());
        assert(chunk_views(chunks@) + Seq::<Seq<u8>>::empty() =~= chunk_views(chunks@));
    }
    (chunks, short)
}

/// The items of several batches, one batch after the other.
pub open spec fn batches_joined(batches: Seq<Pulled>) -> Pulled
    decreases batches.len(),
{
    if batches.len() == 0 {
        Pulled::empty()
    } else {
        batches[0] + batches_joined(batches.skip(1))
    }
}

/// The chunks that a pump sends of the batches of a source: those of each
/// batch in turn, up to and with the first batch in which an item is
/// missing.
pub open spec fn sent_of_batches(batches: Seq<Pulled>) -> Seq<Seq<u8>>
    decreases batches.len(),
{
    if batches.len() == 0 {
        Seq::empty()
    } else if has_gap(batches[0]) {
        sent_of(batches[0])
    } else {
        sent_of(batches[0]) + sent_of_batches(batches.skip(1))
    }
}

/// What is sent of a run that is followed by another run.
proof fn lemma_sent_of_joined(a: Pulled, b: Pulled)
    ensures
        sent_of(a + b) == (if has_gap(a) {
            sent_of(a)
        } else {
            sent_of(a) + sent_of(b)
        }),
    decreases a.len(),
{
    if a.len() == 0 {
        assert(a + b =~= b);
        assert(Seq::<Seq<u8>>::empty() + sent_of(b) =~= sent_of(b));
    } else {
        let rest = a.skip(1);
        assert((a + b).skip(1) =~= rest + b);
        assert((a + b)[0] == a[0]);
        lemma_sent_of_joined(rest, b);
        match a[0] {
            Some(bytes) => {
                if has_gap(rest) {
                    let k = choose|k: int| 0 <= k < rest.len() && (#[trigger] rest[k]) is None;
                    assert(a[k + 1] == rest[k]);
                } else if has_gap(a) {
                    let k = choose|k: int| 0 <= k < a.len() && (#[trigger] a[k]) is None;
                    assert(rest[k - 1] == a[k]);
                }
                assert(seq![bytes] + (sent_of(rest) + sent_of(b)) =~= (seq![bytes] + sent_of(rest))
                    + sent_of(b));
            },
            None => {
                assert(a[0] is None);
            },
        }
    }
}

/// Chunks are sent in the order in which the source produced them, however
/// the items are cut into batches: what a pump sends of the batches is what
/// it would send of all items in one run.
pub proof fn lemma_chunks_keep_order(batches: Seq<Pulled>)
    ensures
        sent_of_batches(batches) == sent_of(batches_joined(batches)),
    decreases batches.len(),
{
    if batches.len() > 0 {
        lemma_chunks_keep_order(batches.skip(1));
        lemma_sent_of_joined(batches[0], batches_joined(batches.skip(1)));
    }
}

/// Of a source that produces every item, every item is sent, in order.
pub proof fn lemma_all_chunks_sent(items: Pulled)
    requires
        !has_gap(items),
    ensures
        sent_of(items).len() == items.len(),
        forall|i: int| 0 <= i < items.len() ==> Some(#[trigger] sent_of(items)[i]) == items[i],
    decreases items.len(),
{
    if items.len() > 0 {
        let rest = items.skip(1);
        assert(items[0] is Some);
        assert forall|k: int| 0 <= k < rest.len() implies (#[trigger] rest[k]) is Some by {
            assert(rest[k] == items[k + 1]);
        }
        lemma_all_chunks_sent(rest);
        assert forall|i: int| 0 <= i < items.len() implies Some(#[trigger] sent_of(items)[i])
            == items[i] by {
            if i > 0 {
                assert(sent_of(items)[i] == sent_of(rest)[i - 1]);
                assert(rest[i - 1] == items[i]);
            }
        }
    }
}

} // verus!
