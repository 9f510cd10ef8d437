//! The stream decorator: wraps a body stream, forwards every chunk
//! unchanged to the consumer, keeps a private copy of the bytes seen so
//! far, and fires a terminal action exactly once — with everything
//! accumulated — when the stream ends, fails, or is abandoned.

use vstd::prelude::*;

use crate::stream::{
    concat_data, data_chunks, has_fault, lemma_has_fault_at, lemma_script_extend, BodySize,
    ByteStream, Pulled, PulledModel, StepModel, StreamModel,
};

verus! {

/// Mathematical model of the accumulation buffer and terminal-action
/// state: `emitted` is `None` until the terminal action has fired, and
/// afterwards holds exactly the bytes the action was handed.
pub struct LogModel {
    pub accum: Seq<u8>,
    pub emitted: Option<Seq<u8>>,
}

impl LogModel {
    /// Whether the terminal action has already fired.
    pub open spec fn fired(self) -> bool {
        self.emitted is Some
    }
}

/// The accumulation buffer of a decorator together with its
/// terminal-action state. The terminal action is modelled as the one-time
/// hand-over of the accumulated bytes: `finish` returns them the first
/// time and records them in `emitted`; every later call is a no-op.
pub struct ChunkLog {
    accum: Vec<u8>,
    emitted: Option<Vec<u8>>,
}

impl View for ChunkLog {
    type V = LogModel;

    closed spec fn view(&self) -> LogModel {
        LogModel {
            accum: self.accum@,
            emitted: match self.emitted {
                Some(ref v) => Some(v@),
                None => None,
            },
        }
    }
}

impl ChunkLog {
    /// An empty buffer whose terminal action has not fired.
    pub fn new() -> (log: ChunkLog)
        ensures
            log@.accum == Seq::<u8>::empty(),
            log@.emitted is None,
    {
        ChunkLog { accum: Vec::new(), emitted: None }
    }

    /// Whether the terminal action has already fired.
    pub fn has_fired(&self) -> (r: bool)
        ensures
            r == self@.fired(),
    {
        self.emitted.is_some()
    }

    /// Append a copy of one observed chunk to the accumulation buffer.
    pub fn record(&mut self, chunk: &Vec<u8>)
        requires
            !old(self)@.fired(),
        ensures
            final(self)@.accum == old(self)@.accum + chunk@,
            final(self)@.emitted is None,
    {
        self.accum.extend_from_slice(chunk.as_slice());
        assert(self.accum@ =~= old(self).accum@ + chunk@);
    }

    /// Fire the terminal action: hand over everything accumulated so far,
    /// exactly once. A later call returns nothing and changes nothing.
    pub fn finish(&mut self) -> (payload: Option<Vec<u8>>)
        ensures
            old(self)@.fired() ==> {
                &&& final(self)@ == old(self)@
                &&& payload is None
            },
            !old(self)@.fired() ==> {
                &&& final(self)@.accum == old(self)@.accum
                &&& final(self)@.emitted == Some(old(self)@.accum)
                &&& payload matches Some(p) && p@ == old(self)@.accum
            },
    {
        match self.emitted {
            Some(_) => None,
            None => {
                let copy = crate::stream::clone_bytes(&self.accum);
                self.emitted = Some(crate::stream::clone_bytes(&self.accum));
                Some(copy)
            },
        }
    }

    /// What the terminal action was handed, if it has fired.
    pub fn emission(&self) -> (r: &Option<Vec<u8>>)
        ensures
            match r {
                Some(v) => self@.emitted == Some(v@),
                None => self@.emitted is None,
            },
    {
        &self.emitted
    }
}

/// Mathematical model of a stream decorator.
pub struct DecoratorModel {
    pub inner: StreamModel,
    pub log: LogModel,
}

impl DecoratorModel {
    /// Until the terminal action fires, the accumulation buffer holds
    /// exactly the concatenation of every data chunk pulled so far.
    pub open spec fn wf(self) -> bool {
        &&& self.inner.wf()
        &&& (!self.log.fired() ==> self.log.accum == concat_data(
            self.inner.steps.subrange(0, self.inner.pos),
        ))
    }
}

/// Wraps a body stream. Every pull is forwarded to the wrapped stream;
/// each yielded chunk is copied into the accumulation buffer and returned
/// to the caller unchanged; on end-of-stream or a producer fault the
/// terminal action fires — exactly once — with the accumulated bytes; on
/// abandonment the owner fires it through `abandon`. The declared size is
/// reported unchanged from the wrapped stream.
pub struct StreamDecorator {
    inner: ByteStream,
    log: ChunkLog,
}

impl View for StreamDecorator {
    type V = DecoratorModel;

    closed spec fn view(&self) -> DecoratorModel {
        DecoratorModel { inner: self.inner@, log: self.log@ }
    }
}

impl StreamDecorator {
    /// Wrap a stream that has not yet been pulled from.
    pub fn wrap(stream: ByteStream) -> (d: StreamDecorator)
        requires
            stream@.wf(),
            stream@.fresh(),
        ensures
            d@.inner == stream@,
            d@.log.accum == Seq::<u8>::empty(),
            d@.log.emitted is None,
            d@.wf(),
    {
        let d = StreamDecorator { inner: stream, log: ChunkLog::new() };
        assert(d@.inner.steps.subrange(0, 0) =~= Seq::<StepModel>::empty());
        d
    }

    /// The declared size of the decorated stream: exactly the declared
    /// size of the stream it wraps, for every kind of size hint.
    pub fn size(&self) -> (s: BodySize)
        ensures
            s == self@.inner.size,
    {
        self.inner.size()
    }

    /// What the terminal action was handed, if it has fired.
    pub fn emission(&self) -> (r: &Option<Vec<u8>>)
        ensures
            match r {
                Some(v) => self@.log.emitted == Some(v@),
                None => self@.log.emitted is None,
            },
    {
        self.log.emission()
    }

    /// Pull the next chunk. A yielded chunk is returned byte-identical to
    /// what the wrapped stream yielded, after a copy of it is appended to
    /// the accumulation buffer. End-of-stream and a producer fault both
    /// fire the terminal action before they are passed on; once it has
    /// fired, the stream only reports end-of-stream.
    pub fn pull(&mut self) -> (r: Pulled)
        requires
            old(self)@.wf(),
        ensures
            final(self)@.wf(),
            final(self)@.inner.steps == old(self)@.inner.steps,
            final(self)@.inner.size == old(self)@.inner.size,
            old(self)@.log.fired() ==> {
                &&& final(self)@ == old(self)@
                &&& r@ == PulledModel::Done
            },
            !old(self)@.log.fired() && old(self)@.inner.pos == old(self)@.inner.steps.len() ==> {
                &&& r@ == PulledModel::Done
                &&& final(self)@.inner.pos == old(self)@.inner.pos
                &&& final(self)@.log.accum == old(self)@.log.accum
                &&& final(self)@.log.emitted == Some(old(self)@.log.accum)
                &&& final(self)@.log.emitted == Some(concat_data(old(self)@.inner.steps))
            },
            !old(self)@.log.fired() && old(self)@.inner.pos < old(self)@.inner.steps.len() ==> {
                &&& final(self)@.inner.pos == old(self)@.inner.pos + 1
                &&& match old(self)@.inner.steps[old(self)@.inner.pos] {
                    StepModel::Data(c) => {
                        &&& r@ == PulledModel::Chunk(c)
                        &&& final(self)@.log.accum == old(self)@.log.accum + c
                        &&& final(self)@.log.emitted is None
                    },
                    StepModel::Fault => {
                        &&& r@ == PulledModel::Failed
                        &&& final(self)@.log.accum == old(self)@.log.accum
                        &&& final(self)@.log.emitted == Some(old(self)@.log.accum)
                    },
                }
            },
    {
        if self.log.has_fired() {
            return Pulled::Done;
        }
        let r = self.inner.pull();
        match r {
            Pulled::Chunk(c) => {
                self.log.record(&c);
                proof {
                    lemma_script_extend(self@.inner.steps, 0, self@.inner.pos - 1);
                }
                Pulled::Chunk(c)
            },
            Pulled::Failed => {
                let _ = self.log.finish();
                Pulled::Failed
            },
            Pulled::Done => {
                let _ = self.log.finish();
                proof {
                    assert(old(self)@.inner.steps.subrange(0, old(self)@.inner.pos)
                        =~= old(self)@.inner.steps);
                }
                Pulled::Done
            },
        }
    }

    /// Give the stream up before it has ended (the consumer disconnected
    /// or stopped pulling): fire the terminal action with whatever was
    /// accumulated so far, exactly once, and hand its payload back.
    pub fn abandon(&mut self) -> (payload: Option<Vec<u8>>)
        requires
            old(self)@.wf(),
        ensures
            final(self)@.wf(),
            final(self)@.inner == old(self)@.inner,
            old(self)@.log.fired() ==> {
                &&& final(self)@ == old(self)@
                &&& payload is None
            },
            !old(self)@.log.fired() ==> {
                &&& final(self)@.log.accum == old(self)@.log.accum
                &&& final(self)@.log.emitted == Some(old(self)@.log.accum)
                &&& final(self)@.log.emitted == Some(concat_data(
                    old(self)@.inner.steps.subrange(0, old(self)@.inner.pos),
                ))
                &&& payload matches Some(p) && p@ == old(self)@.log.accum
            },
    {
        self.log.finish()
    }

    /// The transport layer's pull loop: deliver every remaining chunk in
    /// producer order, byte-identical, stopping at end-of-stream or at the
    /// first producer fault; either way the terminal action has fired with
    /// the concatenation of everything delivered (after what was already
    /// accumulated).
    #[verifier::loop_isolation(false)]
    pub fn drain(&mut self) -> (out: (Vec<Vec<u8>>, bool))
        requires
            old(self)@.wf(),
            !old(self)@.log.fired(),
        ensures
            final(self)@.wf(),
            final(self)@.inner.steps == old(self)@.inner.steps,
            final(self)@.inner.size == old(self)@.inner.size,
            final(self)@.log.fired(),
            !has_fault(old(self)@.inner.steps.subrange(
                old(self)@.inner.pos,
                old(self)@.inner.steps.len() as int,
            )) ==> {
                let window = old(self)@.inner.steps.subrange(
                    old(self)@.inner.pos,
                    old(self)@.inner.steps.len() as int,
                );
                &&& out.1 == false
                &&& final(self)@.inner.pos == old(self)@.inner.steps.len()
                &&& out.0@.map_values(|c: Vec<u8>| c@) == data_chunks(window)
                &&& final(self)@.log.emitted == Some(old(self)@.log.accum + concat_data(window))
            },
            has_fault(old(self)@.inner.steps.subrange(
                old(self)@.inner.pos,
                old(self)@.inner.steps.len() as int,
            )) ==> {
                let window = old(self)@.inner.steps.subrange(
                    old(self)@.inner.pos,
                    final(self)@.inner.pos - 1,
                );
                &&& out.1 == true
                &&& old(self)@.inner.pos < final(self)@.inner.pos <= old(self)@.inner.steps.len()
                &&& old(self)@.inner.steps[final(self)@.inner.pos - 1] is Fault
                &&& !has_fault(window)
                &&& out.0@.map_values(|c: Vec<u8>| c@) == data_chunks(window)
                &&& final(self)@.log.emitted == Some(old(self)@.log.accum + concat_data(window))
            },
    {
        let mut out: Vec<Vec<u8>> = Vec::new();
        loop
            invariant
                self@.wf(),
                !self@.log.fired(),
                self@.inner.steps == old(self)@.inner.steps,
                self@.inner.size == old(self)@.inner.size,
                old(self)@.inner.pos <= self@.inner.pos,
                self@.log.accum == old(self)@.log.accum + concat_data(
                    self@.inner.steps.subrange(old(self)@.inner.pos, self@.inner.pos),
                ),
                out@.map_values(|c: Vec<u8>| c@) == data_chunks(
                    self@.inner.steps.subrange(old(self)@.inner.pos, self@.inner.pos),
                ),
                !has_fault(self@.inner.steps.subrange(old(self)@.inner.pos, self@.inner.pos)),
            decreases self@.inner.steps.len() - self@.inner.pos,
        {
            let ghost pos0 = self@.inner.pos;
            match self.pull() {
                Pulled::Chunk(c) => {
                    out.push(c);
                    proof {
                        lemma_script_extend(self@.inner.steps, old(self)@.inner.pos, pos0);
                        assert(out@.map_values(|c: Vec<u8>| c@) =~= data_chunks(
                            self@.inner.steps.subrange(old(self)@.inner.pos, self@.inner.pos),
                        ));
                    }
                },
                Pulled::Failed => {
                    proof {
                        let window_all = self@.inner.steps.subrange(
                            old(self)@.inner.pos,
                            self@.inner.steps.len() as int,
                        );
                        assert(window_all[pos0 - old(self)@.inner.pos] == self@.inner.steps[pos0]);
                        lemma_has_fault_at(window_all, pos0 - old(self)@.inner.pos);
                    }
                    return (out, true);
                },
                Pulled::Done => {
                    return (out, false);
                },
            }
        }
    }
}

} // verus!
