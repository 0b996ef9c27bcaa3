//! The stages a client runs a request through: authentication, the request
//! interceptors in order, sending (through the middleware chain, or straight to
//! the transport for multipart bodies), then the response interceptors in order.
//! A stage that fails ends the run with its error: no later stage runs.
use vstd::prelude::*;

verus! {

/// A stage of running a request.
#[derive(Debug, Clone, Copy, PartialEq, Eq)]
pub enum Stage {
    /// Let the configured authentication write its header.
    Authenticate,
    /// Pass the request through the request interceptor at this index.
    RequestInterceptor(usize),
    /// Send the request.
    Send,
    /// Pass the response through the response interceptor at this index.
    ResponseInterceptor(usize),
    /// The response is ready.
    Done,
    /// A stage failed; the run ends with its error.
    Failed,
}

/// The shape of a client's pipeline.
#[derive(Debug, Clone, Copy)]
pub struct Pipeline {
    pub has_auth: bool,
    pub request_interceptors: usize,
    pub response_interceptors: usize,
    /// Multipart requests go straight to the transport and skip the response
    /// interceptors.
    pub multipart: bool,
}

impl Pipeline {
    /// The stage after the request interceptors.
    pub open spec fn spec_after_request_interceptors(self, i: nat) -> Stage {
        if i < self.request_interceptors {
            Stage::RequestInterceptor(i as usize)
        } else {
            Stage::Send
        }
    }

    /// The stage after the response interceptors from index `i` on.
    pub open spec fn spec_after_response_interceptors(self, i: nat) -> Stage {
        if !self.multipart && i < self.response_interceptors {
            Stage::ResponseInterceptor(i as usize)
        } else {
            Stage::Done
        }
    }

    /// The first stage.
    pub open spec fn spec_first(self) -> Stage {
        if self.has_auth {
            Stage::Authenticate
        } else {
            self.spec_after_request_interceptors(0)
        }
    }

    /// The stage that follows `s` when `s` succeeds.
    pub open spec fn spec_after(self, s: Stage) -> Stage {
        match s {
            Stage::Authenticate => self.spec_after_request_interceptors(0),
            Stage::RequestInterceptor(i) => self.spec_after_request_interceptors((i + 1) as nat),
            Stage::Send => self.spec_after_response_interceptors(0),
            Stage::ResponseInterceptor(i) => self.spec_after_response_interceptors((i + 1) as nat),
            Stage::Done => Stage::Done,
            Stage::Failed => Stage::Failed,
        }
    }

    /// The stage that follows `s` given its outcome: the next stage when it
    /// succeeded, `Failed` when it failed.
    pub open spec fn spec_next(self, s: Stage, succeeded: bool) -> Stage {
        if succeeded {
            self.spec_after(s)
        } else {
            Stage::Failed
        }
    }

    /// The first stage.
    pub fn first(&self) -> (s: Stage)
        ensures
            s == self.spec_first(),
    {
        if self.has_auth {
            Stage::Authenticate
        } else if 0 < self.request_interceptors {
            Stage::RequestInterceptor(0)
        } else {
            Stage::Send
        }
    }

    /// The stage that follows `s` when `s` succeeds.
    pub fn after(&self, s: Stage) -> (r: Stage)
        requires
            s matches Stage::RequestInterceptor(i) ==> i < self.request_interceptors,
            s matches Stage::ResponseInterceptor(i) ==> i < self.response_interceptors,
        ensures
            r == self.spec_after(s),
    {
        match s {
            Stage::Authenticate => if 0 < self.request_interceptors {
                Stage::RequestInterceptor(0)
            } else {
                Stage::Send
            },
            Stage::RequestInterceptor(i) => if i + 1 < self.request_interceptors {
                Stage::RequestInterceptor(i + 1)
            } else {
                Stage::Send
            },
            Stage::Send => if !self.multipart && 0 < self.response_interceptors {
                Stage::ResponseInterceptor(0)
            } else {
                Stage::Done
            },
            Stage::ResponseInterceptor(i) => if !self.multipart && i + 1 < self.response_interceptors {
                Stage::ResponseInterceptor(i + 1)
            } else {
                Stage::Done
            },
            Stage::Done => Stage::Done,
            Stage::Failed => Stage::Failed,
        }
    }

    /// The stage that follows `s` given its outcome: the next stage when it
    /// succeeded; `Failed`, which ends the run, when it failed.
    pub fn next(&self, s: Stage, succeeded: bool) -> (r: Stage)
        requires
            s matches Stage::RequestInterceptor(i) ==> i < self.request_interceptors,
            s matches Stage::ResponseInterceptor(i) ==> i < self.response_interceptors,
        ensures
            r == self.spec_next(s, succeeded),
    {
        if succeeded {
            self.after(s)
        } else {
            Stage::Failed
        }
    }

    /// Every stage of a successful run, in order.
    pub open spec fn spec_stages(self) -> Seq<Stage> {
        (if self.has_auth {
            seq![Stage::Authenticate]
        } else {
            Seq::<Stage>::empty()
        }) + Seq::new(self.request_interceptors as nat, |i: int| Stage::RequestInterceptor(i as usize))
            + seq![Stage::Send] + (if self.multipart {
            Seq::<Stage>::empty()
        } else {
            Seq::new(self.response_interceptors as nat, |i: int| Stage::ResponseInterceptor(i as usize))
        }) + seq![Stage::Done]
    }
}

/// A successful run meets authentication (when configured), every request
/// interceptor in order, the send, every response interceptor in order (not
/// for multipart requests), and then is done.
pub proof fn law_pipeline_order(p: Pipeline)
    ensures
        p.spec_first() == p.spec_stages()[0],
        forall|k: int|
            0 <= k < p.spec_stages().len() - 1 ==> p.spec_after(#[trigger] p.spec_stages()[k])
                == p.spec_stages()[k + 1],
        p.spec_stages().last() == Stage::Done,
{
    let a: int = if p.has_auth {
        1
    } else {
        0
    };
    let n = p.request_interceptors as int;
    let m: int = if p.multipart {
        0
    } else {
        p.response_interceptors as int
    };
    let st = p.spec_stages();
    assert(st.len() == a + n + 1 + m + 1);
    assert forall|k: int| 0 <= k < st.len() implies #[trigger] st[k] == (if k < a {
        Stage::Authenticate
    } else if k < a + n {
        Stage::RequestInterceptor((k - a) as usize)
    } else if k == a + n {
        Stage::Send
    } else if k < a + n + 1 + m {
        Stage::ResponseInterceptor((k - a - n - 1) as usize)
    } else {
        Stage::Done
    }) by {}
    assert forall|k: int| 0 <= k < st.len() - 1 implies p.spec_after(#[trigger] st[k]) == st[k
        + 1] by {
        // Mention the stage at k + 1 so that its description above applies.
        assert(st[k + 1] == st[k + 1]);
    }
}

/// A failing stage ends the run: whatever stage fails, the run moves to
/// `Failed` and stays there, so no later stage (not the send, no interceptor)
/// runs, and the run is never done; `Failed` is no stage of a successful run.
pub proof fn law_failure_ends_run(p: Pipeline, s: Stage, succeeded: bool)
    ensures
        p.spec_next(s, false) == Stage::Failed,
        p.spec_next(Stage::Failed, succeeded) == Stage::Failed,
        !p.spec_stages().contains(Stage::Failed),
{
    let st = p.spec_stages();
    if st.contains(Stage::Failed) {
        let k = choose|k: int| 0 <= k < st.len() && st[k] == Stage::Failed;
        let a: int = if p.has_auth { 1 } else { 0 };
        let n = p.request_interceptors as int;
        let m: int = if p.multipart { 0 } else { p.response_interceptors as int };
        assert(st.len() == a + n + 1 + m + 1);
        if k < a {
            assert(st[k] == Stage::Authenticate);
        } else if k < a + n {
            assert(st[k] == Stage::RequestInterceptor((k - a) as usize));
        } else if k == a + n {
            assert(st[k] == Stage::Send);
        } else if k < a + n + 1 + m {
            assert(st[k] == Stage::ResponseInterceptor((k - a - n - 1) as usize));
        } else {
            assert(st[k] == Stage::Done);
        }
    }
}

} // verus!
