//! Transcript commitment selection: which byte ranges of the exchanged
//! transcript are cryptographically committed.
//!
//! The selection policy is a capability — a strategy turns a transcript
//! into a commitment configuration — so that alternative disclosure
//! policies can replace the default without touching the orchestration.
//! The default policy commits the entire request and the entire response.

use vstd::prelude::*;

verus! {

/// Which side of the transcript a span refers to.
#[derive(Clone, Copy, PartialEq, Eq, Structural, Debug)]
pub enum Direction {
    Sent,
    Received,
}

/// One committed byte range of the transcript.
#[derive(Clone, Copy, PartialEq, Eq, Structural, Debug)]
pub struct CommitSpan {
    pub direction: Direction,
    pub start: usize,
    pub end: usize,
}

/// The regions one iteration commits to; consumed exactly once by the
/// protocol engine's commit step.
#[derive(Debug)]
pub struct CommitmentConfig {
    pub spans: Vec<CommitSpan>,
}

/// Whether a span refers to a region that exists in a transcript with
/// the given side lengths.
pub open spec fn span_valid(s: CommitSpan, sent_len: nat, recv_len: nat) -> bool {
    &&& s.start <= s.end
    &&& match s.direction {
        Direction::Sent => s.end <= sent_len,
        Direction::Received => s.end <= recv_len,
    }
}

/// Whether every span of a configuration refers to a region that exists.
pub open spec fn config_valid(spans: Seq<CommitSpan>, sent_len: nat, recv_len: nat) -> bool {
    forall|i: int| 0 <= i < spans.len() ==> span_valid(#[trigger] spans[i], sent_len, recv_len)
}

/// Checks that every referenced transcript region exists.
pub fn validate_config(c: &CommitmentConfig, sent_len: usize, recv_len: usize) -> (r: bool)
    ensures
        r == config_valid(c.spans@, sent_len as nat, recv_len as nat),
{
    let n = c.spans.len();
    let mut i: usize = 0;
    while i < n
        invariant
            i <= n,
            n == c.spans@.len(),
            forall|k: int|
                0 <= k < i ==> span_valid(#[trigger] c.spans@[k], sent_len as nat, recv_len as nat),
        decreases n - i,
    {
        let s = c.spans[i];
        let limit = match s.direction {
            Direction::Sent => sent_len,
            Direction::Received => recv_len,
        };
        if s.start > s.end || s.end > limit {
            assert(!span_valid(c.spans@[i as int], sent_len as nat, recv_len as nat));
            return false;
        }
        i = i + 1;
    }
    true
}

/// The capability of selecting commitment regions: a strategy maps a
/// transcript to the regions to commit, and nothing else may influence
/// the choice.
pub trait CommitStrategy: Sized {
    /// The regions this strategy selects, as a function of the
    /// transcript alone.
    spec fn spec_plan(&self, sent: Seq<u8>, recv: Seq<u8>) -> Seq<CommitSpan>;

    /// Selects the regions to commit for the given transcript.
    fn plan(&self, sent: &[u8], recv: &[u8]) -> (r: Vec<CommitSpan>)
        ensures
            r@ == self.spec_plan(sent@, recv@),
    ;
}

/// The default policy: commit the entire request and the entire
/// response.
pub struct DefaultCommitter;

impl CommitStrategy for DefaultCommitter {
    open spec fn spec_plan(&self, sent: Seq<u8>, recv: Seq<u8>) -> Seq<CommitSpan> {
        seq![
            CommitSpan { direction: Direction::Sent, start: 0, end: sent.len() as usize },
            CommitSpan { direction: Direction::Received, start: 0, end: recv.len() as usize },
        ]
    }

    fn plan(&self, sent: &[u8], recv: &[u8]) -> (r: Vec<CommitSpan>)
        ensures
            r@ == self.spec_plan(sent@, recv@),
    {
        let r: Vec<CommitSpan> = vec![
            CommitSpan { direction: Direction::Sent, start: 0, end: sent.len() },
            CommitSpan { direction: Direction::Received, start: 0, end: recv.len() },
        ];
        assert(r@ =~= self.spec_plan(sent@, recv@));
        r
    }
}

/// Law: the commitment builder is deterministic.  The regions a strategy
/// selects are a function of the transcript and the strategy alone: for
/// equal transcripts, the selected regions are equal.
pub proof fn lemma_commit_builder_deterministic<S: CommitStrategy>(
    s: &S,
    sent1: Seq<u8>,
    recv1: Seq<u8>,
    sent2: Seq<u8>,
    recv2: Seq<u8>,
)
    requires
        sent1 == sent2,
        recv1 == recv2,
    ensures
        s.spec_plan(sent1, recv1) == s.spec_plan(sent2, recv2),
{
}

/// Law: the default policy's regions always exist in the transcript they
/// were selected from.
pub proof fn lemma_default_plan_valid(sent: Seq<u8>, recv: Seq<u8>)
    requires
        sent.len() <= usize::MAX,
        recv.len() <= usize::MAX,
    ensures
        config_valid(
            (DefaultCommitter {}).spec_plan(sent, recv),
            sent.len(),
            recv.len(),
        ),
{
    let plan = (DefaultCommitter {}).spec_plan(sent, recv);
    assert(span_valid(plan[0], sent.len(), recv.len()));
    assert(span_valid(plan[1], sent.len(), recv.len()));
}

} // verus!
