//! The response-body data model: a lazily produced byte stream, modelled as
//! a finite script of pull outcomes, and the declared-size hint that the
//! transport layer frames the body with.

use vstd::prelude::*;

verus! {

/// The total-size hint a body stream advertises to the transport layer
/// before the first chunk is pulled.
#[derive(Clone, Copy, PartialEq, Eq, Structural, Debug)]
pub enum BodySize {
    /// The body is known to hold no bytes at all.
    Empty,
    /// The body holds exactly this many bytes.
    Known(u64),
    /// The total length is not known in advance (chunked framing).
    Unknown,
}

/// One outcome the producer of a body stream can yield on a pull.
pub enum StreamStep {
    /// The producer yields one chunk of bytes (possibly empty).
    Data(Vec<u8>),
    /// The producer fails mid-stream.
    Fault,
}

/// Mathematical model of one producer step.
pub enum StepModel {
    Data(Seq<u8>),
    Fault,
}

impl View for StreamStep {
    type V = StepModel;

    open spec fn view(&self) -> StepModel {
        match self {
            StreamStep::Data(c) => StepModel::Data(c@),
            StreamStep::Fault => StepModel::Fault,
        }
    }
}

/// What one pull of a body stream hands the consumer.
pub enum Pulled {
    /// One chunk of bytes, exactly as the producer yielded it.
    Chunk(Vec<u8>),
    /// The producer failed; the error propagates to the consumer.
    Failed,
    /// End of stream.
    Done,
}

/// Mathematical model of one pull outcome.
pub enum PulledModel {
    Chunk(Seq<u8>),
    Failed,
    Done,
}

impl View for Pulled {
    type V = PulledModel;

    open spec fn view(&self) -> PulledModel {
        match self {
            Pulled::Chunk(c) => PulledModel::Chunk(c@),
            Pulled::Failed => PulledModel::Failed,
            Pulled::Done => PulledModel::Done,
        }
    }
}

/// Mathematical model of a body stream: the script of steps the producer
/// will yield, how many of them have already been pulled, and the declared
/// size hint.
pub struct StreamModel {
    pub steps: Seq<StepModel>,
    pub pos: int,
    pub size: BodySize,
}

/// A lazily produced sequence of byte chunks with a declared total-size
/// hint. The producer is modelled as a finite script of steps; the stream
/// is consumed in a single forward pass and is not restartable.
pub struct ByteStream {
    steps: Vec<StreamStep>,
    pos: usize,
    size: BodySize,
}

impl View for ByteStream {
    type V = StreamModel;

    closed spec fn view(&self) -> StreamModel {
        StreamModel {
            steps: self.steps@.map_values(|s: StreamStep| s@),
            pos: self.pos as int,
            size: self.size,
        }
    }
}

impl StreamModel {
    /// The consumed position never passes the end of the script.
    pub open spec fn wf(self) -> bool {
        0 <= self.pos <= self.steps.len()
    }

    /// A stream that was created and not yet pulled from.
    pub open spec fn fresh(self) -> bool {
        self.pos == 0
    }
}

impl ByteStream {
    /// A stream that will yield the given script of steps, with the given
    /// declared size.
    pub fn new(steps: Vec<StreamStep>, size: BodySize) -> (s: ByteStream)
        ensures
            s@.steps == steps@.map_values(|st: StreamStep| st@),
            s@.pos == 0,
            s@.size == size,
            s@.wf(),
    {
        ByteStream { steps, pos: 0, size }
    }

    /// A body holding exactly the given bytes, delivered as one chunk, with
    /// the size hint the byte count.
    pub fn from_bytes(bytes: Vec<u8>) -> (s: ByteStream)
        ensures
            s@.steps =~= seq![StepModel::Data(bytes@)],
            s@.pos == 0,
            s@.size == BodySize::Known(bytes@.len() as u64),
            s@.wf(),
    {
        let n: usize = bytes.len();
        let mut steps: Vec<StreamStep> = Vec::new();
        steps.push(StreamStep::Data(bytes));
        ByteStream { steps, pos: 0, size: BodySize::Known(n as u64) }
    }

    /// A body known to hold no bytes.
    pub fn empty() -> (s: ByteStream)
        ensures
            s@.steps =~= Seq::<StepModel>::empty(),
            s@.pos == 0,
            s@.size == BodySize::Empty,
            s@.wf(),
    {
        ByteStream { steps: Vec::new(), pos: 0, size: BodySize::Empty }
    }

    /// The declared total-size hint; it never changes once the stream
    /// exists, however many chunks have been pulled.
    pub fn size(&self) -> (s: BodySize)
        ensures
            s == self@.size,
    {
        self.size
    }

    /// Pull the next step from the producer: the next scripted chunk or
    /// fault, or end-of-stream once the script is exhausted.
    pub fn pull(&mut self) -> (r: Pulled)
        requires
            old(self)@.wf(),
        ensures
            final(self)@.wf(),
            final(self)@.steps == old(self)@.steps,
            final(self)@.size == old(self)@.size,
            old(self)@.pos == old(self)@.steps.len() ==> {
                &&& r@ == PulledModel::Done
                &&& final(self)@.pos == old(self)@.pos
            },
            old(self)@.pos < old(self)@.steps.len() ==> {
                &&& final(self)@.pos == old(self)@.pos + 1
                &&& r@ == match old(self)@.steps[old(self)@.pos] {
                    StepModel::Data(c) => PulledModel::Chunk(c),
                    StepModel::Fault => PulledModel::Failed,
                }
            },
    {
        if self.pos == self.steps.len() {
            Pulled::Done
        } else {
            let step = &self.steps[self.pos];
            self.pos = self.pos + 1;
            assert(self@.steps[self.pos - 1] == step@);
            match step {
                StreamStep::Data(c) => Pulled::Chunk(clone_bytes(c)),
                StreamStep::Fault => Pulled::Failed,
            }
        }
    }

    /// Read the stream to its end, concatenating every remaining data
    /// chunk, for a hook that buffers a whole body before acting on it.
    /// The flag says whether the producer reached its end without a fault.
    #[verifier::loop_isolation(false)]
    pub fn gather(&mut self) -> (out: (Vec<u8>, bool))
        requires
            old(self)@.wf(),
        ensures
            final(self)@.wf(),
            final(self)@.steps == old(self)@.steps,
            ({
                let window = old(self)@.steps.subrange(
                    old(self)@.pos,
                    old(self)@.steps.len() as int,
                );
                &&& out.1 == !has_fault(window)
                &&& (out.1 ==> out.0@ == concat_data(window))
            }),
    {
        let mut acc: Vec<u8> = Vec::new();
        loop
            invariant
                self@.wf(),
                self@.steps == old(self)@.steps,
                old(self)@.pos <= self@.pos,
                acc@ == concat_data(self@.steps.subrange(old(self)@.pos, self@.pos)),
                !has_fault(self@.steps.subrange(old(self)@.pos, self@.pos)),
            decreases self@.steps.len() - self@.pos,
        {
            let ghost pos0 = self@.pos;
            match self.pull() {
                Pulled::Chunk(c) => {
                    acc.extend_from_slice(c.as_slice());
                    proof {
                        lemma_script_extend(self@.steps, old(self)@.pos, pos0);
                        assert(acc@ =~= concat_data(
                            self@.steps.subrange(old(self)@.pos, self@.pos),
                        ));
                    }
                },
                Pulled::Failed => {
                    proof {
                        let window = self@.steps.subrange(
                            old(self)@.pos,
                            self@.steps.len() as int,
                        );
                        assert(window[pos0 - old(self)@.pos] == self@.steps[pos0]);
                        lemma_has_fault_at(window, pos0 - old(self)@.pos);
                    }
                    return (acc, false);
                },
                Pulled::Done => {
                    return (acc, true);
                },
            }
        }
    }
}

/// The concatenation of every data chunk in a script of producer steps
/// (a fault step contributes no bytes).
pub open spec fn concat_data(steps: Seq<StepModel>) -> Seq<u8>
    decreases steps.len(),
{
    if steps.len() == 0 {
        Seq::<u8>::empty()
    } else {
        concat_data(steps.drop_last()) + match steps.last() {
            StepModel::Data(c) => c,
            StepModel::Fault => Seq::<u8>::empty(),
        }
    }
}

/// The data chunks of a script of producer steps, in producer order
/// (fault steps left out).
pub open spec fn data_chunks(steps: Seq<StepModel>) -> Seq<Seq<u8>>
    decreases steps.len(),
{
    if steps.len() == 0 {
        Seq::<Seq<u8>>::empty()
    } else {
        data_chunks(steps.drop_last()) + match steps.last() {
            StepModel::Data(c) => seq![c],
            StepModel::Fault => Seq::<Seq<u8>>::empty(),
        }
    }
}

/// Whether a script of producer steps holds a fault anywhere.
pub open spec fn has_fault(steps: Seq<StepModel>) -> bool
    decreases steps.len(),
{
    steps.len() > 0 && (steps.last() is Fault || has_fault(steps.drop_last()))
}

/// A script with a fault at some index has a fault.
pub proof fn lemma_has_fault_at(steps: Seq<StepModel>, i: int)
    requires
        0 <= i < steps.len(),
        steps[i] is Fault,
    ensures
        has_fault(steps),
    decreases steps.len(),
{
    if i == steps.len() - 1 {
    } else {
        lemma_has_fault_at(steps.drop_last(), i);
    }
}

/// Extending a window of a script by one step extends its data
/// concatenation, its chunk list, and its fault flag accordingly.
pub proof fn lemma_script_extend(steps: Seq<StepModel>, a: int, k: int)
    requires
        0 <= a <= k < steps.len(),
    ensures
        concat_data(steps.subrange(a, k + 1)) == concat_data(steps.subrange(a, k)) + match steps[k] {
            StepModel::Data(c) => c,
            StepModel::Fault => Seq::<u8>::empty(),
        },
        data_chunks(steps.subrange(a, k + 1)) == data_chunks(steps.subrange(a, k)) + match steps[k] {
            StepModel::Data(c) => seq![c],
            StepModel::Fault => Seq::<Seq<u8>>::empty(),
        },
        has_fault(steps.subrange(a, k + 1)) == (has_fault(steps.subrange(a, k)) || steps[k] is Fault),
{
    let w = steps.subrange(a, k + 1);
    assert(w.drop_last() =~= steps.subrange(a, k));
    assert(w.last() == steps[k]);
}

/// An exact copy of a byte vector.
pub fn clone_bytes(b: &Vec<u8>) -> (r: Vec<u8>)
    ensures
        r@ == b@,
{
    let mut r: Vec<u8> = Vec::new();
    let mut i: usize = 0;
    while i < b.len()
        invariant
            i <= b.len(),
            r@ == b@.subrange(0, i as int),
        decreases b.len() - i,
    {
        r.push(b[i]);
        assert(r@ =~= b@.subrange(0, i as int + 1));
        i = i + 1;
    }
    assert(r@ =~= b@);
    r
}

} // verus!
