//! The sliding window of recent block hashes that segment proving takes as
//! chain context.
//!
//! The window has a fixed size for a whole run. After each block it drops its
//! oldest hash and takes the hash of the block that was just processed as its
//! newest.
use vstd::prelude::*;

verus! {

/// What the window holds after it has moved past one block: every hash but
/// the oldest, in their old order, and then the new block's hash.
pub open spec fn advanced<H>(window: Seq<H>, newest: H) -> Seq<H> {
    if window.len() == 0 {
        window
    } else {
        window.subrange(1, window.len() as int).push(newest)
    }
}

/// The window after it has moved past each block of `hashes` in turn.
pub open spec fn advanced_by<H>(window: Seq<H>, hashes: Seq<H>) -> Seq<H>
    decreases hashes.len(),
{
    if hashes.len() == 0 {
        window
    } else {
        advanced(advanced_by(window, hashes.drop_last()), hashes.last())
    }
}

/// Moves the window past one block: the oldest hash leaves, `newest` enters
/// at the end. A window of size zero stays empty, so that the size never
/// changes.
pub fn advance_window<H>(window: &mut Vec<H>, newest: H)
    ensures
        final(window)@ == advanced(old(window)@, newest),
        final(window)@.len() == old(window)@.len(),
{
    if window.len() > 0 {
        let _oldest = window.remove(0);
        window.push(newest);
    }
}

/// What a run over consecutive blocks carries from one block to the next:
/// the proof of the block before, and the window of block hashes.
#[derive(Clone, Debug, PartialEq, Eq)]
pub struct RunState<H, B> {
    pub previous: Option<B>,
    pub prev_hashes: Vec<H>,
}

impl<H, B> RunState<H, B> {
    /// The state before the first block of a run: the proof that the run
    /// starts from, if any, and the hashes of the blocks before the first.
    pub fn new(previous: Option<B>, prev_hashes: Vec<H>) -> (r: Self)
        ensures
            r.previous == previous,
            r.prev_hashes == prev_hashes,
    {
        RunState { previous, prev_hashes }
    }

    /// Moves past a block that was proved: its proof becomes the
    /// predecessor of the next block, and its hash enters the window.
    pub fn advance(&mut self, curr_hash: H, curr_proof: B)
        ensures
            final(self).previous == Some(curr_proof),
            final(self).prev_hashes@ == advanced(old(self).prev_hashes@, curr_hash),
            final(self).prev_hashes@.len() == old(self).prev_hashes@.len(),
    {
        self.previous = Some(curr_proof);
        advance_window(&mut self.prev_hashes, curr_hash);
    }
}

/// Moving the window keeps its size.
pub proof fn lemma_advanced_keeps_size<H>(window: Seq<H>, newest: H)
    ensures
        advanced(window, newest).len() == window.len(),
{
}

/// After one block a non-empty window ends in the new block's hash, and
/// every other place holds what stood one place later before.
pub proof fn lemma_advanced_shifts<H>(window: Seq<H>, newest: H)
    requires
        window.len() > 0,
    ensures
        advanced(window, newest).last() == newest,
        forall|i: int|
            0 <= i < window.len() - 1 ==> #[trigger] advanced(window, newest)[i] == window[i + 1],
{
}

/// After any number of blocks the window still has its first size.
pub proof fn lemma_advanced_by_keeps_size<H>(window: Seq<H>, hashes: Seq<H>)
    ensures
        advanced_by(window, hashes).len() == window.len(),
    decreases hashes.len(),
{
    if hashes.len() > 0 {
        lemma_advanced_by_keeps_size(window, hashes.drop_last());
    }
}

/// Once as many blocks have passed as the window is wide, the window holds
/// exactly the hashes of the latest blocks, oldest first.
pub proof fn lemma_advanced_by_fills<H>(window: Seq<H>, hashes: Seq<H>)
    requires
        hashes.len() >= window.len(),
    ensures
        advanced_by(window, hashes) == hashes.subrange(
            hashes.len() - window.len(),
            hashes.len() as int,
        ),
    decreases hashes.len(),
{
    lemma_advanced_by_keeps_size(window, hashes);
    let w = window.len() as int;
    let n = hashes.len() as int;
    if w == 0 {
        assert(advanced_by(window, hashes) =~= hashes.subrange(n - w, n));
    } else if n == w {
        lemma_advanced_by_prefix(window, hashes);
        assert(advanced_by(window, hashes) =~= hashes.subrange(n - w, n));
    } else {
        lemma_advanced_by_fills(window, hashes.drop_last());
        assert(advanced_by(window, hashes) =~= hashes.subrange(n - w, n));
    }
}

/// While fewer blocks have passed than the window is wide, the window holds
/// what is left of its first hashes and then the hashes of those blocks.
pub proof fn lemma_advanced_by_prefix<H>(window: Seq<H>, hashes: Seq<H>)
    requires
        hashes.len() <= window.len(),
    ensures
        advanced_by(window, hashes) == window.subrange(
            hashes.len() as int,
            window.len() as int,
        ) + hashes,
    decreases hashes.len(),
{
    let w = window.len() as int;
    let n = hashes.len() as int;
    if n == 0 {
        assert(advanced_by(window, hashes) =~= window.subrange(n, w) + hashes);
    } else {
        lemma_advanced_by_prefix(window, hashes.drop_last());
        lemma_advanced_by_keeps_size(window, hashes.drop_last());
        assert(advanced_by(window, hashes) =~= window.subrange(n, w) + hashes);
    }
}

} // verus!
