use vstd::prelude::*;
use crate::command::Command;

verus! {

/// A breach of the delivery contract between an executor and a listener.
#[derive(Clone, Copy, Debug, PartialEq, Eq, Structural)]
pub enum DeliveryError {
    /// A unit of work outside the build's range reported output.
    UnknownUnit(usize),
    /// A unit of work reported its output a second time.
    AlreadyDelivered(usize),
    /// Draining was asked for while this unit had not reported yet.
    Incomplete(usize),
}

/// The commands of the units of work `units`, in unit order.
pub open spec fn flatten(units: Seq<Seq<Command>>) -> Seq<Command>
    decreases units.len(),
{
    if units.len() == 0 {
        Seq::empty()
    } else {
        flatten(units.drop_last()) + units.last()
    }
}

/// The sink that receives the command stream, one command at a time: it
/// keeps each command it accepts, in the order accepted.
pub struct CommandLog {
    delivered: Vec<Command>,
}

impl View for CommandLog {
    type V = Seq<Command>;

    closed spec fn view(&self) -> Seq<Command> {
        self.delivered@
    }
}

impl CommandLog {
    /// A sink that has accepted nothing yet.
    pub fn new() -> (r: CommandLog)
        ensures
            r@ == Seq::<Command>::empty(),
    {
        CommandLog { delivered: Vec::new() }
    }

    /// Accepts one command, after all those accepted before it.
    pub fn accept(&mut self, c: Command)
        ensures
            final(self)@ == old(self)@.push(c),
    {
        self.delivered.push(c);
    }

    /// The commands accepted so far, in order.
    pub fn delivered(&self) -> (r: &Vec<Command>)
        ensures
            r@ == self@,
    {
        &self.delivered
    }

    /// Accepts each command of `cs`, in order.
    pub fn accept_all(&mut self, cs: &Vec<Command>)
        ensures
            final(self)@ == old(self)@ + cs@,
    {
        let ghost start = self@;
        let mut j: usize = 0;
        while j < cs.len()
            invariant
                j <= cs.len(),
                self@ == start + cs@.take(j as int),
            decreases cs.len() - j,
        {
            self.accept(cs[j]);
            assert(cs@.take(j + 1) =~= cs@.take(j as int).push(cs@[j as int]));
            j = j + 1;
        }
        assert(cs@.take(cs.len() as int) =~= cs@);
    }
}

/// The views of the outputs of the units of work, in unit order.
pub open spec fn units_view(units: Seq<Vec<Command>>) -> Seq<Seq<Command>> {
    units.map_values(|u: Vec<Command>| u@)
}

/// Runs the units of work one after the other on the calling context:
/// each unit's commands reach `log` as soon as the unit has produced them.
pub fn deliver_sequential(units: &Vec<Vec<Command>>, log: &mut CommandLog)
    ensures
        final(log)@ == old(log)@ + flatten(units_view(units@)),
{
    let ghost start = old(log)@;
    let ghost uv = units_view(units@);
    let mut i: usize = 0;
    while i < units.len()
        invariant
            i <= units.len(),
            uv == units_view(units@),
            log@ == start + flatten(uv.take(i as int)),
        decreases units.len() - i,
    {
        log.accept_all(&units[i]);
        assert(uv.take(i + 1).drop_last() =~= uv.take(i as int));
        assert(uv.take(i + 1).last() == units[i as int]@);
        assert(start + flatten(uv.take(i as int)) + units[i as int]@
            =~= start + (flatten(uv.take(i as int)) + units[i as int]@));
        i = i + 1;
    }
    assert(uv.take(units.len() as int) =~= uv);
}


/// The abstract state of an ordered collector: which units of work have
/// reported, and the output each reported.
pub struct CollectorView {
    pub done: Seq<bool>,
    pub outputs: Seq<Seq<Command>>,
}

/// A collector for `n` units of work of which none has reported.
pub open spec fn fresh_collector(n: nat) -> CollectorView {
    CollectorView {
        done: Seq::new(n, |i: int| false),
        outputs: Seq::new(n, |i: int| Seq::<Command>::empty()),
    }
}

/// What the report of output `out` by unit `unit` does to a collector.
pub open spec fn complete_outcome(v: CollectorView, unit: int, out: Seq<Command>) -> Result<
    CollectorView,
    DeliveryError,
> {
    if unit < 0 || unit >= v.done.len() {
        Err(DeliveryError::UnknownUnit(unit as usize))
    } else if v.done[unit] {
        Err(DeliveryError::AlreadyDelivered(unit as usize))
    } else {
        Ok(CollectorView { done: v.done.update(unit, true), outputs: v.outputs.update(unit, out) })
    }
}

/// Unit `a` reports `oa`, then unit `b` reports `ob`.
pub open spec fn complete_two(
    v: CollectorView,
    a: int,
    oa: Seq<Command>,
    b: int,
    ob: Seq<Command>,
) -> Result<CollectorView, DeliveryError> {
    match complete_outcome(v, a, oa) {
        Ok(w) => complete_outcome(w, b, ob),
        Err(e) => Err(e),
    }
}

/// The units listed in `order` report, in that order, the outputs that
/// `units` gives for them.
pub open spec fn complete_in_order(v: CollectorView, order: Seq<int>, units: Seq<Seq<Command>>) -> Result<
    CollectorView,
    DeliveryError,
>
    decreases order.len(),
{
    if order.len() == 0 {
        Ok(v)
    } else {
        match complete_in_order(v, order.drop_last(), units) {
            Ok(w) => complete_outcome(w, order.last(), units[order.last()]),
            Err(e) => Err(e),
        }
    }
}

/// The first unit that has not reported, if there is one.
pub open spec fn is_first_missing(done: Seq<bool>, i: int) -> bool {
    0 <= i < done.len() && !done[i] && forall|j: int| 0 <= j < i ==> done[j]
}

/// Gathers the output of units of work that may finish in any order, and
/// hands it to the listener in unit order, as a sequential run would.
pub struct OrderedCollector {
    done: Vec<bool>,
    outputs: Vec<Vec<Command>>,
}

impl View for OrderedCollector {
    type V = CollectorView;

    closed spec fn view(&self) -> CollectorView {
        CollectorView { done: self.done@, outputs: units_view(self.outputs@) }
    }
}

impl OrderedCollector {
    /// Both views describe the same number of units.
    pub open spec fn wf(&self) -> bool {
        self@.done.len() == self@.outputs.len()
    }

    /// A collector for `n` units of work, none of which has reported.
    pub fn new(n: usize) -> (r: OrderedCollector)
        ensures
            r.wf(),
            r@ == fresh_collector(n as nat),
    {
        let mut done: Vec<bool> = Vec::new();
        let mut outputs: Vec<Vec<Command>> = Vec::new();
        let mut i: usize = 0;
        while i < n
            invariant
                i <= n,
                done@ == Seq::new(i as nat, |k: int| false),
                outputs@.len() == i,
                forall|k: int| 0 <= k < i ==> outputs@[k]@ == Seq::<Command>::empty(),
            decreases n - i,
        {
            done.push(false);
            let empty: Vec<Command> = Vec::new();
            outputs.push(empty);
            assert(done@ =~= Seq::new((i + 1) as nat, |k: int| false));
            i = i + 1;
        }
        assert(units_view(outputs@) =~= Seq::new(n as nat, |k: int| Seq::<Command>::empty()));
        OrderedCollector { done, outputs }
    }

    /// Records the output `out` of unit `unit`.
    pub fn complete(&mut self, unit: usize, out: Vec<Command>) -> (r: Result<(), DeliveryError>)
        requires
            old(self).wf(),
        ensures
            final(self).wf(),
            match complete_outcome(old(self)@, unit as int, out@) {
                Ok(v) => r is Ok && final(self)@ == v,
                Err(e) => r == Err::<(), DeliveryError>(e) && final(self)@ == old(self)@,
            },
    {
        if unit >= self.done.len() {
            return Err(DeliveryError::UnknownUnit(unit));
        }
        if self.done[unit] {
            return Err(DeliveryError::AlreadyDelivered(unit));
        }
        let ghost out_view = out@;
        self.done.set(unit, true);
        self.outputs.set(unit, out);
        assert(units_view(self.outputs@) =~= units_view(old(self).outputs@).update(unit as int, out_view));
        Ok(())
    }

    /// Once every unit has reported, hands all their commands to `log` in
    /// unit order; otherwise names the first unit still missing and hands
    /// over nothing.
    pub fn drain_into(&self, log: &mut CommandLog) -> (r: Result<(), DeliveryError>)
        requires
            self.wf(),
        ensures
            r is Ok <==> forall|i: int| 0 <= i < self@.done.len() ==> self@.done[i],
            r is Ok ==> final(log)@ == old(log)@ + flatten(self@.outputs),
            r matches Err(e) ==> final(log)@ == old(log)@ && exists|i: int|
                is_first_missing(self@.done, i) && e == DeliveryError::Incomplete(i as usize),
    {
        let mut i: usize = 0;
        while i < self.done.len()
            invariant
                i <= self.done.len(),
                forall|j: int| 0 <= j < i ==> self.done@[j],
            decreases self.done.len() - i,
        {
            if !self.done[i] {
                assert(is_first_missing(self@.done, i as int));
                return Err(DeliveryError::Incomplete(i));
            }
            i = i + 1;
        }
        deliver_sequential(&self.outputs, log);
        Ok(())
    }
}


/// Where the commands of unit `i` start in `flatten(units)`.
pub open spec fn unit_offset(units: Seq<Seq<Command>>, i: int) -> int {
    flatten(units.take(i)).len() as int
}

proof fn lemma_flatten_prefix(units: Seq<Seq<Command>>, k: int, i: int, j: int)
    requires
        0 <= i < k <= units.len(),
        0 <= j < units[i].len(),
    ensures
        unit_offset(units, i) + j < flatten(units.take(k)).len(),
        flatten(units.take(k))[unit_offset(units, i) + j] == units[i][j],
    decreases k,
{
    let t = units.take(k);
    assert(t.drop_last() =~= units.take(k - 1));
    assert(t.last() == units[k - 1]);
    if i < k - 1 {
        lemma_flatten_prefix(units, k - 1, i, j);
    } else {
        assert(units.take(i) =~= units.take(k - 1));
    }
}

/// Each command that a unit of work produced appears in the delivered
/// stream exactly once, at its own place: the units' commands follow one
/// another in unit order, each unit's in the order produced, and nothing
/// else is delivered.
pub proof fn lemma_each_command_delivered_once(units: Seq<Seq<Command>>, i: int, j: int)
    requires
        0 <= i < units.len(),
        0 <= j < units[i].len(),
    ensures
        flatten(units).len() == unit_offset(units, units.len() as int),
        unit_offset(units, i) + units[i].len() == unit_offset(units, i + 1),
        unit_offset(units, i) + j < flatten(units).len(),
        flatten(units)[unit_offset(units, i) + j] == units[i][j],
{
    assert(units.take(units.len() as int) =~= units);
    assert(units.take(i + 1).drop_last() =~= units.take(i));
    assert(units.take(i + 1).last() == units[i]);
    lemma_flatten_prefix(units, units.len() as int, i, j);
}

/// The state of a fresh collector for `n` units after the units listed in
/// `seen` (in range, none twice) have reported their outputs from `units`.
pub open spec fn collector_after(units: Seq<Seq<Command>>, seen: Seq<int>) -> CollectorView {
    CollectorView {
        done: Seq::new(units.len(), |i: int| seen.contains(i)),
        outputs: Seq::new(
            units.len(),
            |i: int| if seen.contains(i) { units[i] } else { Seq::<Command>::empty() },
        ),
    }
}

proof fn lemma_prefix_reported(units: Seq<Seq<Command>>, order: Seq<int>, k: int)
    requires
        order.no_duplicates(),
        forall|j: int| 0 <= j < order.len() ==> 0 <= #[trigger] order[j] < units.len(),
        0 <= k <= order.len(),
    ensures
        complete_in_order(fresh_collector(units.len()), order.take(k), units) == Ok::<
            CollectorView,
            DeliveryError,
        >(collector_after(units, order.take(k))),
    decreases k,
{
    let n = units.len();
    let t = order.take(k);
    if k == 0 {
        assert(t =~= Seq::<int>::empty());
        assert(collector_after(units, t).done =~= fresh_collector(n).done);
        assert(collector_after(units, t).outputs =~= fresh_collector(n).outputs);
    } else {
        let p = order.take(k - 1);
        let u = order[k - 1];
        lemma_prefix_reported(units, order, k - 1);
        assert(t.drop_last() =~= p);
        assert(t.last() == u);
        assert(!p.contains(u)) by {
            if p.contains(u) {
                let j = choose|j: int| 0 <= j < p.len() && p[j] == u;
                assert(order[j] == order[k - 1]);
            }
        }
        assert forall|i: int| #[trigger] t.contains(i) <==> (p.contains(i) || i == u) by {
            if p.contains(i) {
                let j = choose|j: int| 0 <= j < p.len() && p[j] == i;
                assert(t[j] == i);
            }
            if i == u {
                assert(t[k - 1] == i);
            }
            if t.contains(i) {
                let j = choose|j: int| 0 <= j < t.len() && t[j] == i;
                if j < k - 1 {
                    assert(p[j] == i);
                }
            }
        }
        let before = collector_after(units, p);
        assert(collector_after(units, t).done =~= before.done.update(u, true));
        assert(collector_after(units, t).outputs =~= before.outputs.update(u, units[u]));
    }
}

/// Completion order does not matter: when two different units report,
/// either order of their reports is accepted alike and leaves the
/// collector in the same state.
pub proof fn lemma_completion_order_irrelevant(
    v: CollectorView,
    a: int,
    oa: Seq<Command>,
    b: int,
    ob: Seq<Command>,
)
    requires
        v.done.len() == v.outputs.len(),
        a != b,
    ensures
        complete_two(v, a, oa, b, ob) is Ok <==> complete_two(v, b, ob, a, oa) is Ok,
        complete_two(v, a, oa, b, ob) is Ok ==> complete_two(v, a, oa, b, ob) == complete_two(
            v,
            b,
            ob,
            a,
            oa,
        ),
{
    if complete_two(v, a, oa, b, ob) is Ok {
        let w1 = complete_two(v, a, oa, b, ob)->Ok_0;
        let w2 = complete_two(v, b, ob, a, oa)->Ok_0;
        assert(w1.done =~= w2.done);
        assert(w1.outputs =~= w2.outputs);
    }
}

/// When every unit reports exactly once, in whatever order, the collector
/// ends with every unit done and each unit's output in its own place;
/// draining it then hands the listener `flatten(units)`, the stream that a
/// sequential run delivers.
pub proof fn lemma_any_order_matches_sequential(units: Seq<Seq<Command>>, order: Seq<int>)
    requires
        order.no_duplicates(),
        forall|j: int| 0 <= j < order.len() ==> 0 <= #[trigger] order[j] < units.len(),
        forall|i: int| 0 <= i < units.len() ==> order.contains(i),
    ensures
        complete_in_order(fresh_collector(units.len()), order, units) == Ok::<
            CollectorView,
            DeliveryError,
        >(CollectorView { done: Seq::new(units.len(), |i: int| true), outputs: units }),
{
    lemma_prefix_reported(units, order, order.len() as int);
    assert(order.take(order.len() as int) =~= order);
    let w = collector_after(units, order);
    assert(w.done =~= Seq::new(units.len(), |i: int| true));
    assert(w.outputs =~= units);
}

} // verus!
