//! What the driver asks of the wires: the operations it performs on the SPI
//! bus, the DC/RS and RST pins and the delay provider, and how the results of
//! several such requests are chained.

use vstd::prelude::*;

use crate::config::Error;

verus! {

/// One operation on the wires between the host and the controller.
///
/// The driver never touches hardware itself: it records the operations it
/// needs in a [`Script`], in order, and whoever owns the devices performs
/// them one after the other, stopping at the first failure.
#[derive(Debug, PartialEq, Eq)]
pub enum BusOp {
    /// Drive the DC/RS pin: `false` (low) selects the index register for a
    /// command byte, `true` (high) selects data.
    DataCommand(bool),
    /// Drive the RST pin: `true` is high, `false` is low.
    Reset(bool),
    /// One SPI write transaction carrying exactly these bytes.
    Write(Vec<u8>),
    /// Block for this many milliseconds.
    DelayMs(u32),
}

/// The mathematical meaning of a [`BusOp`].
pub ghost enum Action {
    DataCommand(bool),
    Reset(bool),
    Write(Seq<u8>),
    DelayMs(u32),
}

impl View for BusOp {
    type V = Action;

    open spec fn view(&self) -> Action {
        match self {
            BusOp::DataCommand(level) => Action::DataCommand(*level),
            BusOp::Reset(level) => Action::Reset(*level),
            BusOp::Write(bytes) => Action::Write(bytes@),
            BusOp::DelayMs(ms) => Action::DelayMs(*ms),
        }
    }
}

/// An ordered list of bus operations.
pub struct Script {
    ops: Vec<BusOp>,
}

impl View for Script {
    type V = Seq<Action>;

    closed spec fn view(&self) -> Seq<Action> {
        self.ops@.map_values(|op: BusOp| op@)
    }
}

impl Script {
    /// An empty script.
    pub fn new() -> (s: Script)
        ensures
            s@ == Seq::<Action>::empty(),
    {
        let s = Script { ops: Vec::new() };
        assert(s@ =~= Seq::<Action>::empty());
        s
    }

    /// Appends one operation.
    pub fn push(&mut self, op: BusOp)
        ensures
            final(self)@ == old(self)@.push(op@),
    {
        self.ops.push(op);
        assert(self@ =~= old(self)@.push(op@));
    }

    /// The number of operations recorded so far.
    pub fn len(&self) -> (n: usize)
        ensures
            n == self@.len(),
    {
        self.ops.len()
    }

    /// The recorded operations, in the order in which they are to be performed.
    pub fn ops(&self) -> (ops: &Vec<BusOp>)
        ensures
            ops@.map_values(|op: BusOp| op@) == self@,
    {
        &self.ops
    }

    /// Hands out the recorded operations, in the order in which they are to be performed.
    pub fn into_ops(self) -> (ops: Vec<BusOp>)
        ensures
            ops@.map_values(|op: BusOp| op@) == self@,
    {
        self.ops
    }
}

/// The operations that a request leaves behind, and how the request ends.
pub ghost struct Outcome<S, R, T> {
    pub actions: Seq<Action>,
    pub result: Result<(), Error<S, R, T>>,
}

/// A request that performs `actions` and succeeds.
pub open spec fn done<S, R, T>(actions: Seq<Action>) -> Outcome<S, R, T> {
    Outcome { actions, result: Ok(()) }
}

/// A request that fails with `e` before it performs anything.
pub open spec fn failed<S, R, T>(e: Error<S, R, T>) -> Outcome<S, R, T> {
    Outcome { actions: Seq::empty(), result: Err(e) }
}

/// `first`, then `second` unless `first` failed (the `?` of the driver).
pub open spec fn then<S, R, T>(first: Outcome<S, R, T>, second: Outcome<S, R, T>) -> Outcome<
    S,
    R,
    T,
> {
    if first.result is Ok {
        Outcome { actions: first.actions + second.actions, result: second.result }
    } else {
        first
    }
}

/// The requests of `steps` one after the other, up to the first that fails.
pub open spec fn sequence<S, R, T>(steps: Seq<Outcome<S, R, T>>) -> Outcome<S, R, T>
    decreases steps.len(),
{
    if steps.len() == 0 {
        done(Seq::empty())
    } else {
        then(sequence(steps.drop_last()), steps.last())
    }
}

/// Running one more step extends the sequence of the steps before it.
pub proof fn lemma_sequence_step<S, R, T>(steps: Seq<Outcome<S, R, T>>, i: int)
    requires
        0 <= i < steps.len(),
    ensures
        sequence(steps.take(i + 1)) == then(sequence(steps.take(i)), steps[i]),
{
    assert(steps.take(i + 1).drop_last() =~= steps.take(i));
}

/// Once a step has failed, the later steps change nothing.
pub proof fn lemma_sequence_stops<S, R, T>(steps: Seq<Outcome<S, R, T>>, i: int)
    requires
        0 <= i <= steps.len(),
        sequence(steps.take(i)).result is Err,
    ensures
        sequence(steps) == sequence(steps.take(i)),
    decreases steps.len() - i,
{
    if i == steps.len() {
        assert(steps.take(i) =~= steps);
    } else {
        assert(steps.drop_last().take(i) =~= steps.take(i));
        lemma_sequence_stops(steps.drop_last(), i);
    }
}

/// A sequence of steps of which none fails succeeds.
pub proof fn lemma_sequence_all_done<S, R, T>(steps: Seq<Outcome<S, R, T>>)
    requires
        forall|i: int| 0 <= i < steps.len() ==> (#[trigger] steps[i]).result is Ok,
    ensures
        sequence(steps).result is Ok,
    decreases steps.len(),
{
    if steps.len() > 0 {
        lemma_sequence_all_done(steps.drop_last());
    }
}

/// The two bytes of `value`, most significant first.
pub open spec fn be_bytes(value: u16) -> Seq<u8> {
    seq![(value / 256) as u8, (value % 256) as u8]
}

/// The bytes of `words`, each most significant byte first.
pub open spec fn be_words(words: Seq<u16>) -> Seq<u8>
    decreases words.len(),
{
    if words.len() == 0 {
        Seq::empty()
    } else {
        be_words(words.drop_last()) + be_bytes(words.last())
    }
}

/// Encoding one more word appends its two bytes.
pub proof fn lemma_be_words_step(words: Seq<u16>, i: int)
    requires
        0 <= i < words.len(),
    ensures
        be_words(words.take(i + 1)) == be_words(words.take(i)) + be_bytes(words[i]),
{
    assert(words.take(i + 1).drop_last() =~= words.take(i));
}

/// `bytes` cut into transfers of 32 bytes, and the rest (possibly empty) last.
pub open spec fn chunks32(bytes: Seq<u8>) -> Seq<Seq<u8>>
    decreases bytes.len(),
{
    if bytes.len() < 32 {
        seq![bytes]
    } else {
        seq![bytes.take(32)] + chunks32(bytes.skip(32))
    }
}

/// Appending two bytes to a stream whose last chunk has room for them: they
/// join the last chunk, and a chunk that fills up is followed by an empty one.
pub proof fn lemma_chunks32_push2(bytes: Seq<u8>, sent: Seq<Seq<u8>>, last: Seq<u8>, a: u8, b: u8)
    requires
        chunks32(bytes) == sent + seq![last],
        last.len() + 2 <= 32,
    ensures
        last.len() + 2 < 32 ==> chunks32(bytes + seq![a, b]) == sent + seq![last + seq![a, b]],
        last.len() + 2 == 32 ==> chunks32(bytes + seq![a, b]) == sent + seq![
            last + seq![a, b],
            Seq::<u8>::empty(),
        ],
    decreases bytes.len(),
{
    let ext = bytes + seq![a, b];
    if bytes.len() < 32 {
        assert((sent + seq![last]).len() == 1);
        assert(sent.len() == 0);
        assert(last == (sent + seq![last])[0]);
        assert(last == bytes);
        if ext.len() < 32 {
            assert(sent + seq![last + seq![a, b]] =~= seq![ext]);
        } else {
            assert(ext.take(32) =~= ext);
            assert(ext.skip(32) =~= Seq::<u8>::empty());
            assert(chunks32(ext.skip(32)) == seq![Seq::<u8>::empty()]);
            assert(sent + seq![last + seq![a, b], Seq::<u8>::empty()] =~= seq![ext.take(32)]
                + chunks32(ext.skip(32)));
        }
    } else {
        let rest = sent.drop_first();
        assert(sent.len() >= 1) by {
            assert((seq![bytes.take(32)] + chunks32(bytes.skip(32))).len() >= 2) by {
                assert(chunks32(bytes.skip(32)).len() >= 1);
            }
        }
        assert(sent[0] == (sent + seq![last])[0]);
        assert(chunks32(bytes.skip(32)) =~= rest + seq![last]) by {
            assert(chunks32(bytes) =~= seq![bytes.take(32)] + chunks32(bytes.skip(32)));
            assert(chunks32(bytes.skip(32)) =~= chunks32(bytes).drop_first());
            assert((sent + seq![last]).drop_first() =~= rest + seq![last]);
        }
        lemma_chunks32_push2(bytes.skip(32), rest, last, a, b);
        assert(ext.take(32) =~= bytes.take(32));
        assert(ext.skip(32) =~= bytes.skip(32) + seq![a, b]);
        assert(sent =~= seq![sent[0]] + rest);
        if last.len() + 2 < 32 {
            assert(sent + seq![last + seq![a, b]] =~= seq![ext.take(32)] + (rest + seq![last + seq![a, b]]));
        } else {
            assert(sent + seq![last + seq![a, b], Seq::<u8>::empty()] =~= seq![ext.take(32)] + (rest
                + seq![last + seq![a, b], Seq::<u8>::empty()]));
        }
    }
}

} // verus!
