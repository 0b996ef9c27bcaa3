//! The order in which a request passes through the middleware chain: each
//! middleware in turn, then the transport.
use vstd::prelude::*;

verus! {

/// Who handles the request next.
#[derive(Debug, Clone, Copy, PartialEq, Eq)]
pub enum ChainStep {
    /// The middleware at this index.
    Middleware(usize),
    /// The transport, after every middleware.
    Transport,
}

/// A position in a chain of `len` middlewares.
#[derive(Debug, Clone, Copy)]
pub struct ChainPosition {
    index: usize,
    len: usize,
}

/// The handlers that a request meets from position `index` of a chain of
/// `len` middlewares: the remaining middlewares in order, then the transport.
pub open spec fn spec_trace(index: nat, len: nat) -> Seq<ChainStep>
    decreases len - index,
{
    if index < len {
        seq![ChainStep::Middleware(index as usize)] + spec_trace(index + 1, len)
    } else {
        seq![ChainStep::Transport]
    }
}

impl ChainPosition {
    pub closed spec fn spec_index(&self) -> nat {
        self.index as nat
    }

    pub closed spec fn spec_len(&self) -> nat {
        self.len as nat
    }

    pub closed spec fn wf(&self) -> bool {
        self.index <= self.len
    }

    /// The start of a chain of `len` middlewares.
    pub fn new(len: usize) -> (r: Self)
        ensures
            r.spec_index() == 0,
            r.spec_len() == len,
            r.wf(),
    {
        ChainPosition { index: 0, len }
    }

    /// The handler at this position and the position after it.
    pub fn step(&self) -> (r: (ChainStep, ChainPosition))
        requires
            self.wf(),
        ensures
            r.1.wf(),
            r.1.spec_len() == self.spec_len(),
            self.spec_index() < self.spec_len() ==> r.0 == ChainStep::Middleware(
                self.spec_index() as usize,
            ) && r.1.spec_index() == self.spec_index() + 1,
            self.spec_index() >= self.spec_len() ==> r.0 == ChainStep::Transport
                && r.1.spec_index() == self.spec_index(),
            spec_trace(self.spec_index(), self.spec_len()) == if r.0 == ChainStep::Transport {
                seq![r.0]
            } else {
                seq![r.0] + spec_trace(r.1.spec_index(), r.1.spec_len())
            },
    {
        if self.index < self.len {
            (ChainStep::Middleware(self.index), ChainPosition { index: self.index + 1, len: self.len })
        } else {
            (ChainStep::Transport, *self)
        }
    }
}

/// A request meets every middleware exactly once, in the order of the chain,
/// and then the transport.
pub proof fn law_chain_order(len: nat)
    ensures
        spec_trace(0, len).len() == len + 1,
        forall|i: int| 0 <= i < len ==> #[trigger] spec_trace(0, len)[i] == ChainStep::Middleware(i as usize),
        spec_trace(0, len)[len as int] == ChainStep::Transport,
{
    lemma_trace_from(0, len);
}

proof fn lemma_trace_from(index: nat, len: nat)
    requires
        index <= len,
    ensures
        spec_trace(index, len).len() == len - index + 1,
        forall|i: int|
            0 <= i < len - index ==> #[trigger] spec_trace(index, len)[i] == ChainStep::Middleware(
                (index + i) as usize,
            ),
        spec_trace(index, len)[len - index] == ChainStep::Transport,
    decreases len - index,
{
    if index < len {
        lemma_trace_from(index + 1, len);
        let t = spec_trace(index, len);
        let rest = spec_trace(index + 1, len);
        assert(t == seq![ChainStep::Middleware(index as usize)] + rest);
        assert forall|i: int| 0 <= i < len - index implies #[trigger] t[i] == ChainStep::Middleware(
            (index + i) as usize,
        ) by {
            if i > 0 {
                assert(t[i] == rest[i - 1]);
            }
        }
        assert(t[len - index] == rest[len - index - 1]);
    }
}

} // verus!
