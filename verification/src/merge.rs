//! Merging the updates of all components and the events of the windowing
//! system into one sequence, without a source that has nothing to say ever
//! holding back one that has.

use vstd::prelude::*;
use crate::component::{ComponentIdentity, ComponentUpdate};

verus! {

/// What asking a source for its next value gave.
#[derive(Debug, PartialEq, Eq)]
pub enum Polled<T> {
    /// The source has nothing at the moment.
    NotReady,
    /// The source's next value.
    Ready(T),
    /// The source has ended and will give nothing more.
    Ended,
}

/// What the merged sequence yields: a value of the first source, of the
/// second, or of both if both had one.
#[derive(Debug, PartialEq, Eq)]
pub enum MergedItem<A, B> {
    First(A),
    Second(B),
    Both(A, B),
}

/// The merge of what the two sources gave when they were asked in one
/// scheduling tick.
pub open spec fn merged<A, B>(first: Polled<A>, second: Polled<B>) -> Polled<MergedItem<A, B>> {
    match (first, second) {
        (Polled::Ready(a), Polled::Ready(b)) => Polled::Ready(MergedItem::Both(a, b)),
        (Polled::Ready(a), _) => Polled::Ready(MergedItem::First(a)),
        (_, Polled::Ready(b)) => Polled::Ready(MergedItem::Second(b)),
        (Polled::Ended, Polled::Ended) => Polled::Ended,
        _ => Polled::NotReady,
    }
}

/// Merges what two sources gave in one scheduling tick: an item whenever
/// either of them had one, the end when both have ended.
pub fn merge<A, B>(first: Polled<A>, second: Polled<B>) -> (r: Polled<MergedItem<A, B>>)
    ensures
        r == merged(first, second),
{
    match first {
        Polled::Ready(a) => match second {
            Polled::Ready(b) => Polled::Ready(MergedItem::Both(a, b)),
            _ => Polled::Ready(MergedItem::First(a)),
        },
        Polled::NotReady => match second {
            Polled::Ready(b) => Polled::Ready(MergedItem::Second(b)),
            _ => Polled::NotReady,
        },
        Polled::Ended => match second {
            Polled::Ready(b) => Polled::Ready(MergedItem::Second(b)),
            Polled::NotReady => Polled::NotReady,
            Polled::Ended => Polled::Ended,
        },
    }
}

impl<A, B> MergedItem<A, B> {
    /// The value of the second source and the value of the first, as far as
    /// the item holds them.
    pub fn into_parts(self) -> (parts: (Option<B>, Option<A>))
        ensures
            parts == (match self {
                MergedItem::First(a) => (None::<B>, Some(a)),
                MergedItem::Second(b) => (Some(b), None::<A>),
                MergedItem::Both(a, b) => (Some(b), Some(a)),
            }),
    {
        match self {
            MergedItem::First(a) => (None, Some(a)),
            MergedItem::Second(b) => (Some(b), None),
            MergedItem::Both(a, b) => (Some(b), Some(a)),
        }
    }
}

/// A source that has a value is never held back by the other: whenever
/// either source is ready the merge is ready and holds that value, whether
/// the other is ready, not ready or has ended. The merge ends exactly when
/// both sources have ended.
pub proof fn lemma_merge_fair<A, B>(first: Polled<A>, second: Polled<B>)
    ensures
        first is Ready || second is Ready <==> merged(first, second) is Ready,
        first is Ready ==> match merged(first, second)->Ready_0 {
            MergedItem::First(a) => a == first->Ready_0,
            MergedItem::Both(a, _) => a == first->Ready_0,
            MergedItem::Second(_) => false,
        },
        second is Ready ==> match merged(first, second)->Ready_0 {
            MergedItem::Second(b) => b == second->Ready_0,
            MergedItem::Both(_, b) => b == second->Ready_0,
            MergedItem::First(_) => false,
        },
        merged(first, second) is Ended <==> first is Ended && second is Ended,
{
}

/// The mathematical value of a `FanIn`.
pub struct FanInView {
    /// The identity of every source.
    pub identities: Seq<ComponentIdentity>,
    /// For every source, the value it gave that was not yet handed on.
    pub pending: Seq<Option<Seq<char>>>,
    /// For every source, whether it has ended.
    pub ended: Seq<bool>,
    /// The source at which the search for the next update starts: the one
    /// after the source that was served last.
    pub cursor: int,
}

/// The first source in `from..to` that has a pending value, or `to` if
/// there is none.
pub open spec fn first_pending(pending: Seq<Option<Seq<char>>>, from: int, to: int) -> int
    decreases to - from,
{
    if from >= to {
        to
    } else if pending[from] is Some {
        from
    } else {
        first_pending(pending, from + 1, to)
    }
}

impl FanInView {
    /// Every source has an identity, a place for a pending value and a mark
    /// for its end, and the cursor points at a source.
    pub open spec fn wf(self) -> bool {
        &&& self.pending.len() == self.identities.len()
        &&& self.ended.len() == self.identities.len()
        &&& 0 <= self.cursor <= self.identities.len()
    }

    /// Whether `source` may be asked for its next value: it has not ended,
    /// and what it gave before was handed on.
    pub open spec fn wants(self, source: int) -> bool {
        0 <= source < self.identities.len() && self.pending[source] is None && !self.ended[source]
    }

    /// Every source has ended and nothing is pending.
    pub open spec fn drained(self) -> bool {
        forall|i: int|
            0 <= i < self.identities.len() ==> self.pending[i] is None && #[trigger] self.ended[i]
    }

    /// The source that is served next: the first with a pending value from
    /// the cursor on, going round; the number of sources if nothing is
    /// pending.
    pub open spec fn selected(self) -> int {
        let n = self.pending.len() as int;
        let after = first_pending(self.pending, self.cursor, n);
        let before = first_pending(self.pending, 0, self.cursor);
        if after < n {
            after
        } else if before < self.cursor {
            before
        } else {
            n
        }
    }

    /// How many sources are looked at before `source`, going round from the
    /// cursor.
    pub open spec fn distance(self, source: int) -> int {
        if source >= self.cursor {
            source - self.cursor
        } else {
            source - self.cursor + self.pending.len()
        }
    }

    /// The state after `source` gave `polled`.
    pub open spec fn offered(self, source: int, polled: Polled<Seq<char>>) -> FanInView {
        match polled {
            Polled::NotReady => self,
            Polled::Ready(text) => FanInView {
                pending: self.pending.update(source, Some(text)),
                ..self
            },
            Polled::Ended => FanInView { ended: self.ended.update(source, true), ..self },
        }
    }

    /// The state after the next update was handed on: the source served is
    /// free again, and the search will start behind it.
    pub open spec fn taken(self) -> FanInView {
        let served = self.selected();
        if served < self.pending.len() {
            FanInView { pending: self.pending.update(served, None), cursor: served + 1, ..self }
        } else {
            self
        }
    }
}

/// Whether `update` is the text `text` sent by the component `identity`.
pub open spec fn update_of(update: ComponentUpdate, identity: ComponentIdentity, text: Seq<char>)
    -> bool {
    &&& update.slot == identity.slot
    &&& update.index == identity.index
    &&& update.id == identity.id
    &&& update.value@ == text
}

/// The text that `polled` holds, as a mathematical value.
pub open spec fn polled_text(polled: Polled<String>) -> Polled<Seq<char>> {
    match polled {
        Polled::NotReady => Polled::NotReady,
        Polled::Ready(text) => Polled::Ready(text@),
        Polled::Ended => Polled::Ended,
    }
}

/// The fan-in of the components' streams: it keeps what every source gave
/// until it is handed on, tagged with the identity of the source.
pub struct FanIn {
    identities: Vec<ComponentIdentity>,
    pending: Vec<Option<String>>,
    ended: Vec<bool>,
    cursor: usize,
}

/// The texts that are pending, as mathematical values.
pub open spec fn pending_texts(pending: Seq<Option<String>>) -> Seq<Option<Seq<char>>> {
    pending.map_values(
        |p: Option<String>|
            match p {
                Some(text) => Some(text@),
                None => None,
            },
    )
}

impl View for FanIn {
    type V = FanInView;

    closed spec fn view(&self) -> FanInView {
        FanInView {
            identities: self.identities@,
            pending: pending_texts(self.pending@),
            ended: self.ended@,
            cursor: self.cursor as int,
        }
    }
}

impl FanIn {
    /// A fan-in of one source for each of `identities`: nothing is pending,
    /// no source has ended, the search starts at the first source.
    pub fn new(identities: Vec<ComponentIdentity>) -> (fan_in: FanIn)
        ensures
            fan_in@.wf(),
            fan_in@.identities == identities@,
            fan_in@.cursor == 0,
            forall|i: int| 0 <= i < identities@.len() ==> fan_in@.wants(i),
    {
        let n: usize = identities.len();
        let mut pending: Vec<Option<String>> = Vec::new();
        let mut ended: Vec<bool> = Vec::new();
        let mut k: usize = 0;
        while k < n
            invariant
                k <= n,
                pending@.len() == k,
                ended@.len() == k,
                forall|i: int| 0 <= i < k ==> (#[trigger] pending@[i]) is None && !ended@[i],
            decreases n - k,
        {
            pending.push(None);
            ended.push(false);
            k += 1;
        }
        FanIn { identities, pending, ended, cursor: 0 }
    }

    /// The number of sources.
    pub fn len(&self) -> (n: usize)
        ensures
            n == self@.identities.len(),
    {
        self.identities.len()
    }

    /// Whether `source` is to be asked for its next value.
    pub fn wants(&self, source: usize) -> (r: bool)
        requires
            self@.wf(),
        ensures
            r == self@.wants(source as int),
    {
        source < self.identities.len() && self.pending[source].is_none() && !self.ended[source]
    }

    /// Takes what `source` gave when it was asked: a value is kept until it
    /// is handed on, the end of the source is noted.
    pub fn offer(&mut self, source: usize, polled: Polled<String>)
        requires
            old(self)@.wf(),
            old(self)@.wants(source as int),
        ensures
            final(self)@.wf(),
            final(self)@ == old(self)@.offered(source as int, polled_text(polled)),
    {
        match polled {
            Polled::NotReady => {},
            Polled::Ready(text) => {
                self.pending.set(source, Some(text));
                assert(self@.pending =~= old(self)@.pending.update(source as int, Some(text@)));
            },
            Polled::Ended => {
                self.ended.set(source, true);
            },
        }
    }

    /// The first source in `from..to` that has a value pending, or `to`.
    fn find(&self, from: usize, to: usize) -> (found: usize)
        requires
            from <= to <= self@.pending.len(),
        ensures
            found == first_pending(self@.pending, from as int, to as int),
            from <= found <= to,
            found < to ==> self@.pending[found as int] is Some,
            forall|i: int| from <= i < found ==> (#[trigger] self@.pending[i]) is None,
    {
        let mut k: usize = from;
        while k < to
            invariant
                from <= k <= to <= self@.pending.len(),
                first_pending(self@.pending, from as int, to as int) == first_pending(
                    self@.pending,
                    k as int,
                    to as int,
                ),
                forall|i: int| from <= i < k ==> (#[trigger] self@.pending[i]) is None,
            decreases to - k,
        {
            if self.pending[k].is_some() {
                return k;
            }
            k += 1;
        }
        k
    }

    /// Whether every source has ended.
    fn all_ended(&self) -> (r: bool)
        ensures
            r <==> forall|i: int| 0 <= i < self@.ended.len() ==> #[trigger] self@.ended[i],
    {
        let mut k: usize = 0;
        while k < self.ended.len()
            invariant
                k <= self.ended@.len(),
                forall|i: int| 0 <= i < k ==> #[trigger] self.ended@[i],
            decreases self.ended@.len() - k,
        {
            if !self.ended[k] {
                assert(!self@.ended[k as int]);
                return false;
            }
            k += 1;
        }
        true
    }

    /// Hands on the next update, tagged with the identity of its source.
    ///
    /// The sources are looked at in order, going round, starting behind the
    /// one that was served last; the first that has a value pending is
    /// served. With nothing pending, the fan-in has ended if every source
    /// has, and is not ready else.
    pub fn next(&mut self) -> (r: Polled<ComponentUpdate>)
        requires
            old(self)@.wf(),
        ensures
            final(self)@.wf(),
            final(self)@ == old(self)@.taken(),
            ({
                let served = old(self)@.selected();
                if served < old(self)@.pending.len() {
                    r is Ready && update_of(
                        r->Ready_0,
                        old(self)@.identities[served],
                        old(self)@.pending[served]->Some_0,
                    )
                } else if old(self)@.drained() {
                    r is Ended
                } else {
                    r is NotReady
                }
            }),
    {
        let n: usize = self.pending.len();
        let cursor: usize = self.cursor;
        let after = self.find(cursor, n);
        let served = if after < n {
            after
        } else {
            let before = self.find(0, cursor);
            if before < cursor {
                before
            } else {
                n
            }
        };
        if served < n {
            let mut taken: Option<String> = None;
            self.pending.set_and_swap(served, &mut taken);
            self.cursor = served + 1;
            let identity = self.identities[served];
            assert(self@.pending =~= old(self)@.pending.update(served as int, None));
            return Polled::Ready(
                ComponentUpdate {
                    slot: identity.slot,
                    index: identity.index,
                    id: identity.id,
                    value: taken.unwrap(),
                },
            );
        }
        if self.all_ended() {
            Polled::Ended
        } else {
            Polled::NotReady
        }
    }
}

/// The first pending source of a range has a value pending and lies at or
/// before any other source of the range that has one.
pub proof fn lemma_first_pending(pending: Seq<Option<Seq<char>>>, from: int, to: int, source: int)
    requires
        0 <= from <= source < to <= pending.len(),
        pending[source] is Some,
    ensures
        from <= first_pending(pending, from, to) <= source,
        pending[first_pending(pending, from, to)] is Some,
    decreases source - from,
{
    if pending[from] is None {
        lemma_first_pending(pending, from + 1, to, source);
    }
}

/// Where a range holds no pending value, or none before some source, the
/// first pending source of the range lies no earlier.
pub proof fn lemma_first_pending_bounds(pending: Seq<Option<Seq<char>>>, from: int, to: int)
    requires
        0 <= from <= to <= pending.len(),
    ensures
        from <= first_pending(pending, from, to) <= to,
        first_pending(pending, from, to) < to ==> pending[first_pending(pending, from, to)] is Some,
    decreases to - from,
{
    if from < to && pending[from] is None {
        lemma_first_pending_bounds(pending, from + 1, to);
    }
}

/// A source that is never ready does not hold back another: as long as any
/// source has a value pending, the next update is handed on, and it is one
/// that was pending, whatever the other sources do.
pub proof fn lemma_pending_is_served(fan_in: FanInView, source: int)
    requires
        fan_in.wf(),
        0 <= source < fan_in.pending.len(),
        fan_in.pending[source] is Some,
    ensures
        0 <= fan_in.selected() < fan_in.pending.len(),
        fan_in.pending[fan_in.selected()] is Some,
{
    let n = fan_in.pending.len() as int;
    lemma_first_pending_bounds(fan_in.pending, fan_in.cursor, n);
    lemma_first_pending_bounds(fan_in.pending, 0, fan_in.cursor);
    if source >= fan_in.cursor {
        lemma_first_pending(fan_in.pending, fan_in.cursor, n, source);
    } else {
        lemma_first_pending(fan_in.pending, 0, fan_in.cursor, source);
    }
}

/// No source waits for ever: while a source has a value pending, every
/// update that is handed on is either its own, or leaves it pending and
/// brings it nearer to its turn. So it is served after at most as many
/// updates as there are sources, whatever the other sources offer in
/// between.
pub proof fn lemma_no_starvation(fan_in: FanInView, source: int)
    requires
        fan_in.wf(),
        0 <= source < fan_in.pending.len(),
        fan_in.pending[source] is Some,
    ensures
        0 <= fan_in.distance(source) < fan_in.pending.len(),
        fan_in.selected() == source || {
            &&& fan_in.taken().pending[source] == fan_in.pending[source]
            &&& 0 <= fan_in.taken().distance(source) < fan_in.distance(source)
        },
{
    let n = fan_in.pending.len() as int;
    lemma_pending_is_served(fan_in, source);
    lemma_first_pending_bounds(fan_in.pending, fan_in.cursor, n);
    lemma_first_pending_bounds(fan_in.pending, 0, fan_in.cursor);
    if source >= fan_in.cursor {
        lemma_first_pending(fan_in.pending, fan_in.cursor, n, source);
    } else {
        lemma_first_pending(fan_in.pending, 0, fan_in.cursor, source);
    }
}

/// What a source offers changes neither the pending value of another
/// source nor the place where the search starts.
pub proof fn lemma_offer_keeps_others(
    fan_in: FanInView,
    offering: int,
    polled: Polled<Seq<char>>,
    source: int,
)
    requires
        fan_in.wf(),
        fan_in.wants(offering),
        0 <= source < fan_in.pending.len(),
        fan_in.pending[source] is Some,
    ensures
        fan_in.offered(offering, polled).pending[source] == fan_in.pending[source],
        fan_in.offered(offering, polled).distance(source) == fan_in.distance(source),
{
}

} // verus!
