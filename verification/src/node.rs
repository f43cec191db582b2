//! The uniform processing contract every render-side node implements.

pub mod buffer_source;
pub mod iir_filter;

use crate::buffer::AudioRenderQuantum;
use vstd::prelude::*;

verus! {

/// The sample contents of a list of blocks: per block, per channel, per
/// frame.
pub open spec fn blocks_view(blocks: Seq<AudioRenderQuantum>) -> Seq<Seq<Seq<i64>>> {
    Seq::new(blocks.len(), |i: int| blocks[i]@)
}

/// The render-side processing interface.
///
/// The executor drives every node through this contract: given gathered input
/// blocks and output blocks of the node's arity, produce this quantum's
/// output samples.  Each implementation pins the call down completely with
/// two spec functions of its own: `next_state_rel` fixes every observable
/// component of the node's state after the call, and `rendered` gives the
/// exact sample contents of every output block, both as functions of the
/// node's prior state, the input and output block contents, the quantum's
/// first frame and the sample rate.
pub trait AudioProcessor: Sized {
    /// The node's internal well-formedness.
    spec fn valid(&self) -> bool;

    /// How the node's state after one rendered quantum relates to its state
    /// before: an implementation fixes every observable component of `post`.
    spec fn next_state_rel(
        &self,
        post: &Self,
        inputs: Seq<Seq<Seq<i64>>>,
        outputs: Seq<Seq<Seq<i64>>>,
        timestamp: u64,
        sample_rate: u32,
    ) -> bool;

    /// The exact sample contents of every output block after one rendered
    /// quantum (blocks the node does not drive keep their contents).
    spec fn rendered(
        &self,
        inputs: Seq<Seq<Seq<i64>>>,
        outputs: Seq<Seq<Seq<i64>>>,
        timestamp: u64,
        sample_rate: u32,
    ) -> Seq<Seq<Seq<i64>>>;

    /// Whether the node still produces output with no active input.
    spec fn tail_spec(&self) -> bool;

    /// Render one quantum.  `timestamp` is the frame index of the first frame
    /// in the quantum; `sample_rate` is in frames per second.  A node never
    /// panics here: on any per-block error it emits silence or leaves the
    /// block as it was, exactly as its `rendered` states.
    fn process(
        &mut self,
        inputs: &Vec<AudioRenderQuantum>,
        outputs: &mut Vec<AudioRenderQuantum>,
        timestamp: u64,
        sample_rate: u32,
    )
        requires
            old(self).valid(),
        ensures
            final(self).valid(),
            old(self).next_state_rel(
                final(self),
                blocks_view(inputs@),
                blocks_view(old(outputs)@),
                timestamp,
                sample_rate,
            ),
            blocks_view(final(outputs)@) == old(self).rendered(
                blocks_view(inputs@),
                blocks_view(old(outputs)@),
                timestamp,
                sample_rate,
            ),
    ;

    /// Whether the node still produces output with no active input.
    fn tail_time(&self) -> (r: bool)
        ensures
            r == self.tail_spec(),
    ;
}

} // verus!
