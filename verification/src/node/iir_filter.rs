//! A general recursive (IIR) filter node.
//!
//! The filter is constructed from a feedforward and a feedback coefficient
//! list.  Both lists are validated, length-matched by zero-padding the
//! shorter, and normalized by dividing through by the first feedback
//! coefficient (truncated integer division), so that the normalized first
//! feedback coefficient is exactly one.  Per sample the filter computes
//! `y = ff[0]*x + state[0]` and updates
//! `state[i] = ff[i+1]*x - fb[i+1]*y + state[i+1]` (zero past the end),
//! independently per channel, in exact `i64` arithmetic.

use crate::buffer::AudioRenderQuantum;
use crate::math::div_trunc;
use crate::math::div_trunc_i64;
use crate::math::lemma_div_trunc_self;
use crate::node::AudioProcessor;
use vstd::prelude::*;

verus! {

/// Most coefficients a filter may be built from.
pub const MAX_IIR_COEFFS_LEN: usize = 20;

/// Why constructing a node failed.
#[derive(Debug, Copy, Clone, PartialEq, Eq, Structural)]
pub enum ConstructionError {
    /// A coefficient list is empty, too long, or holds an unrepresentable value.
    NotSupported,
    /// A coefficient list is all zero, or the leading feedback coefficient is zero.
    InvalidState,
}

/// Every element of `s` is zero.
pub open spec fn all_zero(s: Seq<i64>) -> bool {
    forall|i: int| 0 <= i < s.len() ==> s[i] == 0i64
}

/// Every element of `s` has a representable negation (is not `i64::MIN`).
pub open spec fn coeffs_in_range(s: Seq<i64>) -> bool {
    forall|i: int| 0 <= i < s.len() ==> s[i] != i64::MIN
}

/// The construction-time validation verdict for a coefficient pair, with the
/// checks made in order: feedforward length, feedforward content, feedback
/// length, feedback content, representable magnitudes, leading feedback
/// coefficient.
pub open spec fn validate_coeffs(ff: Seq<i64>, fb: Seq<i64>) -> Option<ConstructionError> {
    if ff.len() > MAX_IIR_COEFFS_LEN {
        Some(ConstructionError::NotSupported)
    } else if ff.len() == 0 {
        Some(ConstructionError::NotSupported)
    } else if all_zero(ff) {
        Some(ConstructionError::InvalidState)
    } else if fb.len() > MAX_IIR_COEFFS_LEN {
        Some(ConstructionError::NotSupported)
    } else if fb.len() == 0 {
        Some(ConstructionError::NotSupported)
    } else if all_zero(fb) {
        Some(ConstructionError::InvalidState)
    } else if !coeffs_in_range(ff) {
        Some(ConstructionError::NotSupported)
    } else if !coeffs_in_range(fb) {
        Some(ConstructionError::NotSupported)
    } else if fb[0] == 0i64 {
        Some(ConstructionError::InvalidState)
    } else {
        None
    }
}

/// `s[i]`, or zero past the end of `s`.
pub open spec fn padded_at(s: Seq<i64>, i: int) -> i64 {
    if 0 <= i < s.len() {
        s[i]
    } else {
        0i64
    }
}

/// The longer of the two list lengths.
pub open spec fn coeff_len(ff: Seq<i64>, fb: Seq<i64>) -> nat {
    if ff.len() >= fb.len() {
        ff.len()
    } else {
        fb.len()
    }
}

/// The two lists zero-padded to equal length and zipped into pairs.
pub open spec fn paired_coeffs(ff: Seq<i64>, fb: Seq<i64>) -> Seq<(i64, i64)> {
    Seq::new(coeff_len(ff, fb), |i: int| (padded_at(ff, i), padded_at(fb, i)))
}

/// Every pair divided (truncating) by the leading feedback coefficient.
pub open spec fn normalized_coeffs(c: Seq<(i64, i64)>) -> Seq<(int, int)>
    recommends
        c.len() >= 1,
        c[0].1 != 0i64,
{
    Seq::new(
        c.len(),
        |i: int|
            (
                div_trunc(c[i].0 as int, c[0].1 as int),
                div_trunc(c[i].1 as int, c[0].1 as int),
            ),
    )
}

/// The pairs of `s` as mathematical integers.
pub open spec fn pair_ints(s: Seq<(i64, i64)>) -> Seq<(int, int)> {
    Seq::new(s.len(), |i: int| (s[i].0 as int, s[i].1 as int))
}

/// The samples of `s` as mathematical integers.
pub open spec fn ints_of(s: Seq<i64>) -> Seq<int> {
    Seq::new(s.len(), |i: int| s[i] as int)
}

/// `st[i]`, or zero past the end of `st`.
pub open spec fn st_at(st: Seq<int>, i: int) -> int {
    if 0 <= i < st.len() {
        st[i]
    } else {
        0
    }
}

/// `xs[i]`, or zero outside `xs`.
pub open spec fn x_at(xs: Seq<i64>, i: int) -> int {
    if 0 <= i < xs.len() {
        xs[i] as int
    } else {
        0
    }
}

/// The output sample of one filter step: `ff[0]*x + state[0]`.
pub open spec fn tick_y(c: Seq<(i64, i64)>, st: Seq<int>, x: int) -> int
    recommends
        c.len() >= 1,
{
    c[0].0 * x + st_at(st, 0)
}

/// The state vector after one filter step:
/// `state'[i] = ff[i+1]*x - fb[i+1]*y + state[i+1]`.
pub open spec fn tick_st(c: Seq<(i64, i64)>, st: Seq<int>, x: int) -> Seq<int>
    recommends
        c.len() >= 1,
        st.len() == c.len() - 1,
{
    Seq::new(
        st.len(),
        |i: int| c[i + 1].0 * x - c[i + 1].1 * tick_y(c, st, x) + st_at(st, i + 1),
    )
}

/// One filter step stays within the representable sample range.
pub open spec fn tick_fits(c: Seq<(i64, i64)>, st: Seq<int>, x: int) -> bool {
    &&& i64::MIN <= tick_y(c, st, x) <= i64::MAX
    &&& forall|i: int|
        0 <= i < st.len() ==> i64::MIN <= #[trigger] tick_st(c, st, x)[i] <= i64::MAX
}

/// The state vector after filtering the first `n` samples of `xs`.
pub open spec fn run_states(c: Seq<(i64, i64)>, st0: Seq<int>, xs: Seq<i64>, n: int) -> Seq<int>
    decreases n,
{
    if n <= 0 {
        st0
    } else {
        tick_st(c, run_states(c, st0, xs, n - 1), x_at(xs, n - 1))
    }
}

/// The output sample produced for `xs[n]`.
pub open spec fn run_y(c: Seq<(i64, i64)>, st0: Seq<int>, xs: Seq<i64>, n: int) -> int {
    tick_y(c, run_states(c, st0, xs, n), x_at(xs, n))
}

/// All output samples for the input block `xs`.
pub open spec fn run_outputs(c: Seq<(i64, i64)>, st0: Seq<int>, xs: Seq<i64>) -> Seq<int> {
    Seq::new(xs.len(), |n: int| run_y(c, st0, xs, n))
}

/// Filtering the whole block stays within the representable sample range.
pub open spec fn run_fits(c: Seq<(i64, i64)>, st0: Seq<int>, xs: Seq<i64>) -> bool {
    forall|n: int|
        0 <= n < xs.len() ==> tick_fits(c, #[trigger] run_states(c, st0, xs, n), x_at(xs, n))
}

/// A vector of `m` zeroed running accumulators.
pub open spec fn zero_states(m: nat) -> Seq<int> {
    Seq::new(m, |i: int| 0)
}

/// Options for constructing an [`IirFilterNode`].
pub struct IirFilterOptions {
    /// Feedforward (numerator) coefficients.
    pub feedforward: Vec<i64>,
    /// Feedback (denominator) coefficients.
    pub feedback: Vec<i64>,
}

/// The control-side IIR filter node: it keeps the raw coefficient lists the
/// node was built from.
pub struct IirFilterNode {
    feedforward: Vec<i64>,
    feedback: Vec<i64>,
}

/// The render-side configuration handed from node construction to the
/// renderer.
pub struct RendererConfig {
    /// Feedforward (numerator) coefficients.
    pub feedforward: Vec<i64>,
    /// Feedback (denominator) coefficients.
    pub feedback: Vec<i64>,
}

impl IirFilterNode {
    /// The feedforward coefficients the node was built from.
    pub closed spec fn ff_spec(&self) -> Seq<i64> {
        self.feedforward@
    }

    /// The feedback coefficients the node was built from.
    pub closed spec fn fb_spec(&self) -> Seq<i64> {
        self.feedback@
    }

    /// Validate the coefficient lists and build the node.
    ///
    /// Succeeds exactly when [`validate_coeffs`] accepts the pair; otherwise
    /// returns the error that the first failing check prescribes.
    pub fn new(options: IirFilterOptions) -> (r: Result<IirFilterNode, ConstructionError>)
        ensures
            match r {
                Ok(node) => {
                    &&& validate_coeffs(options.feedforward@, options.feedback@) is None
                    &&& node.ff_spec() == options.feedforward@
                    &&& node.fb_spec() == options.feedback@
                },
                Err(e) => validate_coeffs(options.feedforward@, options.feedback@) == Some(e),
            },
    {
        let IirFilterOptions { feedforward, feedback } = options;
        if feedforward.len() > MAX_IIR_COEFFS_LEN {
            return Err(ConstructionError::NotSupported);
        }
        if feedforward.len() == 0 {
            return Err(ConstructionError::NotSupported);
        }
        if is_all_zero(&feedforward) {
            return Err(ConstructionError::InvalidState);
        }
        if feedback.len() > MAX_IIR_COEFFS_LEN {
            return Err(ConstructionError::NotSupported);
        }
        if feedback.len() == 0 {
            return Err(ConstructionError::NotSupported);
        }
        if is_all_zero(&feedback) {
            return Err(ConstructionError::InvalidState);
        }
        if has_unrepresentable(&feedforward) {
            return Err(ConstructionError::NotSupported);
        }
        if has_unrepresentable(&feedback) {
            return Err(ConstructionError::NotSupported);
        }
        if feedback[0] == 0 {
            return Err(ConstructionError::InvalidState);
        }
        Ok(IirFilterNode { feedforward, feedback })
    }

    /// The feedforward coefficients.
    pub fn feedforward(&self) -> (r: &Vec<i64>)
        ensures
            r@ == self.ff_spec(),
    {
        &self.feedforward
    }

    /// The feedback coefficients.
    pub fn feedback(&self) -> (r: &Vec<i64>)
        ensures
            r@ == self.fb_spec(),
    {
        &self.feedback
    }

    /// The render-side configuration for this node.
    pub fn renderer_config(&self) -> (r: RendererConfig)
        ensures
            r.feedforward@ == self.ff_spec(),
            r.feedback@ == self.fb_spec(),
    {
        RendererConfig {
            feedforward: copy_samples(&self.feedforward),
            feedback: copy_samples(&self.feedback),
        }
    }

    /// The node consumes one input block.
    pub fn number_of_inputs(&self) -> (r: u32)
        ensures
            r == 1u32,
    {
        1
    }

    /// The node produces one output block.
    pub fn number_of_outputs(&self) -> (r: u32)
        ensures
            r == 1u32,
    {
        1
    }
}

/// Whether every element of `v` is zero.
fn is_all_zero(v: &Vec<i64>) -> (r: bool)
    ensures
        r == all_zero(v@),
{
    let mut i: usize = 0;
    while i < v.len()
        invariant
            0 <= i <= v@.len(),
            forall|j: int| 0 <= j < i ==> v@[j] == 0i64,
        decreases v@.len() - i,
    {
        if v[i] != 0 {
            return false;
        }
        i += 1;
    }
    true
}

/// Whether some element of `v` is `i64::MIN`.
fn has_unrepresentable(v: &Vec<i64>) -> (r: bool)
    ensures
        r == !coeffs_in_range(v@),
{
    let mut i: usize = 0;
    while i < v.len()
        invariant
            0 <= i <= v@.len(),
            forall|j: int| 0 <= j < i ==> v@[j] != i64::MIN,
        decreases v@.len() - i,
    {
        if v[i] == i64::MIN {
            return true;
        }
        i += 1;
    }
    false
}

/// A fresh copy of a sample vector.
fn copy_samples(v: &Vec<i64>) -> (r: Vec<i64>)
    ensures
        r@ == v@,
{
    let mut r: Vec<i64> = Vec::new();
    let mut i: usize = 0;
    while i < v.len()
        invariant
            0 <= i <= v@.len(),
            r@ == v@.take(i as int),
        decreases v@.len() - i,
    {
        r.push(v[i]);
        i += 1;
    }
    proof {
        assert(v@.take(v@.len() as int) == v@);
    }
    r
}

/// `a * b` exactly, in a wide intermediate.
fn mul_i64(a: i64, b: i64) -> (r: i128)
    ensures
        r == a as int * b as int,
        -0x3fff_ffff_ffff_ffff_8000_0000_0000_0000 <= r <= 0x4000_0000_0000_0000_0000_0000_0000_0000,
{
    proof {
        assert(a as int * b as int <= 0x4000_0000_0000_0000_0000_0000_0000_0000 && a as int * b
            as int >= -0x3fff_ffff_ffff_ffff_8000_0000_0000_0000)
            by (nonlinear_arith)
            requires
                -0x8000_0000_0000_0000 <= a as int <= 0x7fff_ffff_ffff_ffff,
                -0x8000_0000_0000_0000 <= b as int <= 0x7fff_ffff_ffff_ffff,
        ;
    }
    a as i128 * b as i128
}

/// The render-side IIR filter: normalized coefficient pairs plus one vector
/// of running accumulators per channel.
pub struct IirFilterRenderer {
    norm_coeffs: Vec<(i64, i64)>,
    states: Vec<Vec<i64>>,
}

impl IirFilterRenderer {
    /// The normalized coefficient pairs.
    pub closed spec fn coeffs(&self) -> Seq<(i64, i64)> {
        self.norm_coeffs@
    }

    /// The per-channel state vectors.
    pub closed spec fn states_view(&self) -> Seq<Seq<i64>> {
        Seq::new(self.states@.len(), |c: int| self.states@[c]@)
    }

    /// The state vector of channel `c`, as mathematical integers.
    pub open spec fn channel_state(&self, c: int) -> Seq<int> {
        ints_of(self.states_view()[c])
    }

    /// Internal well-formedness: at least one coefficient pair, a leading
    /// feedback coefficient of exactly one, and per-channel state vectors one
    /// shorter than the coefficient list.
    pub open spec fn wf(&self) -> bool {
        &&& 1 <= self.coeffs().len() <= MAX_IIR_COEFFS_LEN
        &&& self.coeffs()[0].1 == 1i64
        &&& forall|c: int|
            0 <= c < self.states_view().len() ==> (#[trigger] self.states_view()[c]).len()
                == self.coeffs().len() - 1
    }

    /// Build the renderer: pair the validated coefficient lists, normalize
    /// them, and start with no per-channel state.
    pub fn new(config: RendererConfig) -> (r: IirFilterRenderer)
        requires
            validate_coeffs(config.feedforward@, config.feedback@) is None,
        ensures
            r.wf(),
            pair_ints(r.coeffs()) == normalized_coeffs(
                paired_coeffs(config.feedforward@, config.feedback@),
            ),
            r.states_view().len() == 0,
    {
        let RendererConfig { feedforward, feedback } = config;
        let coeffs = Self::build_coeffs(feedforward, feedback);
        let norm_coeffs = Self::normalize_coeffs(coeffs);
        IirFilterRenderer { norm_coeffs, states: Vec::new() }
    }

    /// Zero-pad the shorter list and zip the two into pairs.
    fn build_coeffs(feedforward: Vec<i64>, feedback: Vec<i64>) -> (r: Vec<(i64, i64)>)
        ensures
            r@ == paired_coeffs(feedforward@, feedback@),
    {
        let n = if feedforward.len() >= feedback.len() {
            feedforward.len()
        } else {
            feedback.len()
        };
        let mut r: Vec<(i64, i64)> = Vec::new();
        let mut i: usize = 0;
        while i < n
            invariant
                0 <= i <= n,
                n == coeff_len(feedforward@, feedback@),
                r@ == paired_coeffs(feedforward@, feedback@).take(i as int),
            decreases n - i,
        {
            let ff = if i < feedforward.len() {
                feedforward[i]
            } else {
                0
            };
            let fb = if i < feedback.len() {
                feedback[i]
            } else {
                0
            };
            proof {
                assert(paired_coeffs(feedforward@, feedback@).take(i + 1).drop_last()
                    == paired_coeffs(feedforward@, feedback@).take(i as int));
                assert(paired_coeffs(feedforward@, feedback@).take(i + 1).last() == (ff, fb));
            }
            r.push((ff, fb));
            i += 1;
        }
        proof {
            assert(paired_coeffs(feedforward@, feedback@).take(n as int) == paired_coeffs(
                feedforward@,
                feedback@,
            ));
        }
        r
    }

    /// Divide every pair by the leading feedback coefficient, truncating.
    fn normalize_coeffs(coeffs: Vec<(i64, i64)>) -> (r: Vec<(i64, i64)>)
        requires
            coeffs@.len() >= 1,
            coeffs@[0].1 != 0i64,
            forall|i: int|
                0 <= i < coeffs@.len() ==> (#[trigger] coeffs@[i]).0 != i64::MIN && coeffs@[i].1
                    != i64::MIN,
        ensures
            r@.len() == coeffs@.len(),
            pair_ints(r@) == normalized_coeffs(coeffs@),
            r@[0].1 == 1i64,
    {
        let a0 = coeffs[0].1;
        let mut r: Vec<(i64, i64)> = Vec::new();
        let mut i: usize = 0;
        while i < coeffs.len()
            invariant
                0 <= i <= coeffs@.len(),
                coeffs@[0].1 != 0i64,
                a0 == coeffs@[0].1,
                forall|j: int|
                    0 <= j < coeffs@.len() ==> (#[trigger] coeffs@[j]).0 != i64::MIN
                        && coeffs@[j].1 != i64::MIN,
                r@.len() == i,
                forall|j: int|
                    0 <= j < i ==> (#[trigger] r@[j]).0 as int == normalized_coeffs(coeffs@)[j].0
                        && r@[j].1 as int == normalized_coeffs(coeffs@)[j].1,
            decreases coeffs@.len() - i,
        {
            let ff = div_trunc_i64(coeffs[i].0, a0);
            let fb = div_trunc_i64(coeffs[i].1, a0);
            r.push((ff, fb));
            i += 1;
        }
        proof {
            assert(pair_ints(r@) =~= normalized_coeffs(coeffs@));
            lemma_div_trunc_self(coeffs@[0].1 as int);
            assert(pair_ints(r@)[0].1 == 1);
        }
        r
    }

    /// A zeroed state vector, one accumulator per coefficient pair but the
    /// first.
    fn build_filter_states(coeffs: &Vec<(i64, i64)>) -> (r: Vec<i64>)
        requires
            coeffs@.len() >= 1,
        ensures
            r@.len() == coeffs@.len() - 1,
            ints_of(r@) == zero_states((coeffs@.len() - 1) as nat),
    {
        let n = coeffs.len() - 1;
        let mut r: Vec<i64> = Vec::new();
        let mut i: usize = 0;
        while i < n
            invariant
                0 <= i <= n,
                r@.len() == i,
                forall|j: int| 0 <= j < i ==> r@[j] == 0i64,
            decreases n - i,
        {
            r.push(0);
            i += 1;
        }
        proof {
            assert(ints_of(r@) =~= zero_states(n as nat));
        }
        r
    }

    /// Grow or shrink the per-channel state list to `n` channels; existing
    /// channels keep their state, new channels start zeroed.
    pub fn ensure_channels(&mut self, n: usize)
        requires
            old(self).wf(),
        ensures
            final(self).wf(),
            final(self).coeffs() == old(self).coeffs(),
            final(self).states_view().len() == n,
            forall|c: int|
                0 <= c < n ==> final(self).channel_state(c) == (if c < old(self).states_view().len() {
                    old(self).channel_state(c)
                } else {
                    zero_states((old(self).coeffs().len() - 1) as nat)
                }),
    {
        proof {
            assert(self.states@ == self.states@.take(self.states@.len() as int));
        }
        while self.states.len() > n
            invariant
                old(self).wf(),
                self.wf(),
                self.norm_coeffs@ == old(self).norm_coeffs@,
                self.states@.len() <= old(self).states@.len(),
                self.states@ == old(self).states@.take(self.states@.len() as int),
                self.states@.len() >= n || self.states@.len() == old(self).states@.len(),
            decreases self.states@.len(),
        {
            let _ = self.states.pop();
            proof {
                assert(self.states@ =~= old(self).states@.take(self.states@.len() as int));
                assert forall|c: int| 0 <= c < self.states_view().len() implies (
                #[trigger] self.states_view()[c]).len() == self.coeffs().len() - 1 by {
                    assert(self.states_view()[c] == self.states@[c]@);
                    assert(self.states@[c] == old(self).states@[c]);
                    assert(old(self).states_view()[c] == old(self).states@[c]@);
                }
            }
        }
        proof {
            assert forall|c: int| 0 <= c < self.states@.len() implies (#[trigger] self.states@[c])@
                == old(self).states@[c]@ by {
                assert(self.states@[c] == old(self).states@.take(self.states@.len() as int)[c]);
            }
        }
        while self.states.len() < n
            invariant
                old(self).wf(),
                self.wf(),
                self.norm_coeffs@ == old(self).norm_coeffs@,
                self.states@.len() <= n,
                self.states@.len() >= old(self).states@.len() || self.states@.len() >= n,
                forall|c: int|
                    0 <= c < self.states@.len() && c < old(self).states@.len()
                        ==> (#[trigger] self.states@[c])@ == old(self).states@[c]@,
                forall|c: int|
                    old(self).states@.len() <= c < self.states@.len() ==> ints_of(
                        (#[trigger] self.states@[c])@,
                    ) == zero_states((self.norm_coeffs@.len() - 1) as nat),
            decreases n - self.states@.len(),
        {
            let st = Self::build_filter_states(&self.norm_coeffs);
            let ghost pre = *self;
            self.states.push(st);
            proof {
                assert forall|c: int| 0 <= c < self.states_view().len() implies (
                #[trigger] self.states_view()[c]).len() == self.coeffs().len() - 1 by {
                    assert(self.states_view()[c] == self.states@[c]@);
                    if c < self.states@.len() - 1 {
                        assert(self.states@[c] == pre.states@[c]);
                        assert(pre.states_view()[c] == pre.states@[c]@);
                    } else {
                        assert(self.states@[c]@ == st@);
                    }
                }
            }
        }
        proof {
            assert forall|c: int| 0 <= c < n implies final(self).channel_state(c) == (if c < old(self).states_view().len() {
                old(self).channel_state(c)
            } else {
                zero_states((old(self).coeffs().len() - 1) as nat)
            }) by {
                if c < old(self).states@.len() {
                    assert(self.states@[c]@ == old(self).states@[c]@);
                    assert(ints_of(self.states@[c]@) =~= ints_of(old(self).states@[c]@));
                } else {
                    assert(ints_of(self.states@[c]@) == zero_states(
                        (self.norm_coeffs@.len() - 1) as nat,
                    ));
                }
            }
        }
    }

    /// Filter one sample of channel `channel`: compute the output sample and
    /// advance that channel's running accumulators.
    pub fn tick(&mut self, channel: usize, input: i64) -> (y: i64)
        requires
            old(self).wf(),
            channel < old(self).states_view().len(),
            tick_fits(old(self).coeffs(), old(self).channel_state(channel as int), input as int),
        ensures
            final(self).wf(),
            final(self).coeffs() == old(self).coeffs(),
            final(self).states_view().len() == old(self).states_view().len(),
            y as int == tick_y(
                old(self).coeffs(),
                old(self).channel_state(channel as int),
                input as int,
            ),
            final(self).channel_state(channel as int) == tick_st(
                old(self).coeffs(),
                old(self).channel_state(channel as int),
                input as int,
            ),
            forall|c: int|
                0 <= c < old(self).states_view().len() && c != channel ==> final(self).channel_state(c) == old(self).channel_state(c),
    {
        proof {
            assert(old(self).states_view()[channel as int] == old(self).states@[channel as int]@);
            assert(old(self).channel_state(channel as int) == ints_of(
                old(self).states@[channel as int]@,
            ));
        }
        let y = tick_channel(&self.norm_coeffs, &mut self.states[channel], input);
        proof {
            assert(final(self).states_view() =~= old(self).states_view().update(
                channel as int,
                final(self).states@[channel as int]@,
            ));
        }
        y
    }

    /// Whether filtering `xs` on channel `c` stays within the representable
    /// sample range.
    pub fn fits(&self, c: usize, xs: &Vec<i64>) -> (b: bool)
        requires
            self.wf(),
            c < self.states_view().len(),
        ensures
            b == run_fits(self.coeffs(), self.channel_state(c as int), xs@),
    {
        proof {
            assert(self.states_view()[c as int] == self.states@[c as int]@);
        }
        check_fits(&self.norm_coeffs, &self.states[c], xs)
    }

    /// Filter the block `input` into `output`, channel by channel and
    /// independently per channel.
    ///
    /// Every input channel that stays within the representable sample range is
    /// filtered exactly; a channel that would overflow is rendered as silence
    /// and its accumulators are left unchanged, so the render thread never
    /// fails to produce a block.
    pub fn filter(&mut self, input: &AudioRenderQuantum, output: &mut AudioRenderQuantum)
        requires
            old(self).wf(),
            input@.len() == old(self).states_view().len(),
            old(output)@.len() == input@.len(),
            forall|c: int|
                0 <= c < input@.len() ==> (#[trigger] input@[c]).len() == old(output)@[c].len(),
        ensures
            final(self).wf(),
            final(self).coeffs() == old(self).coeffs(),
            final(self).states_view().len() == old(self).states_view().len(),
            final(output)@.len() == old(output)@.len(),
            forall|c: int|
                0 <= c < input@.len() ==> (#[trigger] final(output)@[c]).len()
                    == input@[c].len(),
            forall|c: int|
                0 <= c < input@.len() && run_fits(
                    old(self).coeffs(),
                    old(self).channel_state(c),
                    input@[c],
                ) ==> ints_of(#[trigger] final(output)@[c]) == run_outputs(
                    old(self).coeffs(),
                    old(self).channel_state(c),
                    input@[c],
                ) && final(self).channel_state(c) == run_states(
                    old(self).coeffs(),
                    old(self).channel_state(c),
                    input@[c],
                    input@[c].len() as int,
                ),
            forall|c: int|
                0 <= c < input@.len() && !run_fits(
                    old(self).coeffs(),
                    old(self).channel_state(c),
                    input@[c],
                ) ==> ints_of(#[trigger] final(output)@[c]) == zero_states(input@[c].len())
                    && final(self).channel_state(c) == old(self).channel_state(c),
    {
        let channel_count = input.channel_count();
        let mut c: usize = 0;
        while c < channel_count
            invariant
                self.wf(),
                channel_count == input@.len(),
                input@.len() == old(self).states_view().len(),
                self.coeffs() == old(self).coeffs(),
                self.states_view().len() == old(self).states_view().len(),
                output@.len() == old(output)@.len(),
                old(output)@.len() == input@.len(),
                0 <= c <= channel_count,
                forall|j: int|
                    0 <= j < input@.len() ==> (#[trigger] input@[j]).len() == old(output)@[j].len(),
                forall|j: int|
                    c <= j < input@.len() ==> #[trigger] self.channel_state(j) == old(self).channel_state(j),
                forall|j: int|
                    c <= j < input@.len() ==> #[trigger] output@[j] == old(output)@[j],
                forall|j: int|
                    0 <= j < c ==> (#[trigger] output@[j]).len() == input@[j].len(),
                forall|j: int|
                    0 <= j < c && run_fits(
                        old(self).coeffs(),
                        old(self).channel_state(j),
                        input@[j],
                    ) ==> ints_of(#[trigger] output@[j]) == run_outputs(
                        old(self).coeffs(),
                        old(self).channel_state(j),
                        input@[j],
                    ) && self.channel_state(j) == run_states(
                        old(self).coeffs(),
                        old(self).channel_state(j),
                        input@[j],
                        input@[j].len() as int,
                    ),
                forall|j: int|
                    0 <= j < c && !run_fits(
                        old(self).coeffs(),
                        old(self).channel_state(j),
                        input@[j],
                    ) ==> ints_of(#[trigger] output@[j]) == zero_states(input@[j].len())
                        && self.channel_state(j) == old(self).channel_state(j),
            decreases channel_count - c,
        {
            let xs = input.channel_data(c);
            let ghost prev = *self;
            proof {
                assert(self.states_view()[c as int] == self.states@[c as int]@);
            }
            let ys: Vec<i64>;
            if check_fits(&self.norm_coeffs, &self.states[c], xs) {
                ys = filter_channel(&self.norm_coeffs, &mut self.states[c], xs);
                proof {
                    assert(self.states_view() =~= prev.states_view().update(
                        c as int,
                        self.states@[c as int]@,
                    ));
                }
            } else {
                ys = zero_samples(xs.len());
            }
            output.set_channel(c, ys);
            proof {
                assert(output@[c as int] == ys@);
                assert(prev.states_view()[c as int] == prev.states@[c as int]@);
                assert(prev.channel_state(c as int) == old(self).channel_state(c as int));
                assert(ints_of(prev.states@[c as int]@) == old(self).channel_state(c as int));
                assert forall|j: int|
                    0 <= j < input@.len() && j != c implies #[trigger] self.channel_state(j)
                    == prev.channel_state(j) by {
                    assert(self.states_view()[j] == prev.states_view()[j]);
                    assert(prev.states_view()[j] == prev.states@[j]@);
                }
                assert forall|j: int|
                    0 <= j < c implies #[trigger] self.channel_state(j) == prev.channel_state(
                    j,
                ) && prev.channel_state(j) == self.channel_state(j) by {
                }
                assert(self.states_view()[c as int] == self.states@[c as int]@);
                if run_fits(
                    old(self).coeffs(),
                    old(self).channel_state(c as int),
                    input@[c as int],
                ) {
                    assert(ints_of(output@[c as int]) == run_outputs(
                        old(self).coeffs(),
                        old(self).channel_state(c as int),
                        input@[c as int],
                    ));
                    assert(self.channel_state(c as int) == run_states(
                        old(self).coeffs(),
                        old(self).channel_state(c as int),
                        input@[c as int],
                        input@[c as int].len() as int,
                    ));
                } else {
                    assert(ints_of(output@[c as int]) == zero_states(input@[c as int].len()));
                    assert(self.channel_state(c as int) == old(self).channel_state(c as int));
                }
            }
            c += 1;
        }
        proof {
            assert forall|ch: int|
                0 <= ch < input@.len() && run_fits(
                    old(self).coeffs(),
                    old(self).channel_state(ch),
                    input@[ch],
                ) implies ints_of(#[trigger] final(output)@[ch]) == run_outputs(
                old(self).coeffs(),
                old(self).channel_state(ch),
                input@[ch],
            ) && final(self).channel_state(ch) == run_states(
                old(self).coeffs(),
                old(self).channel_state(ch),
                input@[ch],
                input@[ch].len() as int,
            ) by {
                assert(ints_of(output@[ch]) == run_outputs(
                    old(self).coeffs(),
                    old(self).channel_state(ch),
                    input@[ch],
                ));
            }
        }
    }

    /// The normalized coefficient pairs.
    pub fn norm_coeffs(&self) -> (r: &Vec<(i64, i64)>)
        ensures
            r@ == self.coeffs(),
    {
        &self.norm_coeffs
    }

}

/// Whether the block shapes let the filter run: at least one input and one
/// output block, the first output matching the first input channel for
/// channel and frame for frame.
pub open spec fn filter_shapes_ok(iv: Seq<Seq<Seq<i64>>>, ov: Seq<Seq<Seq<i64>>>) -> bool {
    &&& iv.len() >= 1
    &&& ov.len() >= 1
    &&& ov[0].len() == iv[0].len()
    &&& forall|j: int| 0 <= j < iv[0].len() ==> (#[trigger] iv[0][j]).len() == ov[0][j].len()
}

impl IirFilterRenderer {
    /// The state channel `c` starts a quantum from, once the filter holds one
    /// state vector per input channel: its current accumulators, or zeroed
    /// ones for a channel it has not seen yet.
    pub open spec fn resized_state(&self, c: int) -> Seq<int> {
        if c < self.states_view().len() {
            self.channel_state(c)
        } else {
            zero_states((self.coeffs().len() - 1) as nat)
        }
    }
}

impl AudioProcessor for IirFilterRenderer {
    open spec fn valid(&self) -> bool {
        self.wf()
    }

    /// The coefficients stay; the accumulators of channel `c` advance by
    /// exactly the recurrence over the first input block's channel `c`, or
    /// stay where a channel would overflow; blocks of unexpected shape leave
    /// everything as it was.
    open spec fn next_state_rel(
        &self,
        post: &Self,
        inputs: Seq<Seq<Seq<i64>>>,
        outputs: Seq<Seq<Seq<i64>>>,
        timestamp: u64,
        sample_rate: u32,
    ) -> bool {
        if !filter_shapes_ok(inputs, outputs) {
            *post == *self
        } else {
            &&& post.coeffs() == self.coeffs()
            &&& post.states_view().len() == inputs[0].len()
            &&& forall|c: int|
                0 <= c < inputs[0].len() ==> #[trigger] post.channel_state(c) == (if run_fits(
                    self.coeffs(),
                    self.resized_state(c),
                    inputs[0][c],
                ) {
                    run_states(
                        self.coeffs(),
                        self.resized_state(c),
                        inputs[0][c],
                        inputs[0][c].len() as int,
                    )
                } else {
                    self.resized_state(c)
                })
        }
    }

    /// The first output block carries the filtered first input, channel by
    /// channel per the recurrence (silence for a channel that would
    /// overflow); parameter values play no part, and every other block keeps
    /// its contents.
    open spec fn rendered(
        &self,
        inputs: Seq<Seq<Seq<i64>>>,
        outputs: Seq<Seq<Seq<i64>>>,
        timestamp: u64,
        sample_rate: u32,
    ) -> Seq<Seq<Seq<i64>>> {
        if !filter_shapes_ok(inputs, outputs) {
            outputs
        } else {
            outputs.update(
                0,
                Seq::new(
                    inputs[0].len(),
                    |c: int|
                        if run_fits(self.coeffs(), self.resized_state(c), inputs[0][c]) {
                            Seq::new(
                                inputs[0][c].len(),
                                |k: int|
                                    run_y(
                                        self.coeffs(),
                                        self.resized_state(c),
                                        inputs[0][c],
                                        k,
                                    ) as i64,
                            )
                        } else {
                            Seq::new(inputs[0][c].len(), |k: int| 0i64)
                        },
                ),
            )
        }
    }

    /// There is no tail: the filter's accumulators are not kept alive once
    /// inputs disconnect.
    open spec fn tail_spec(&self) -> bool {
        false
    }

    /// Single-input, single-output node: filter the first input block into
    /// the first output block.  Blocks of unexpected shape produce no output
    /// change; the render thread never blocks or panics here.
    fn process(
        &mut self,
        inputs: &Vec<AudioRenderQuantum>,
        outputs: &mut Vec<AudioRenderQuantum>,
        timestamp: u64,
        sample_rate: u32,
    ) {
        let ghost iv = crate::node::blocks_view(inputs@);
        let ghost ov = crate::node::blocks_view(outputs@);
        if inputs.len() < 1 || outputs.len() < 1 {
            return;
        }
        let input = &inputs[0];
        let channel_count = input.channel_count();
        proof {
            assert(iv[0] == inputs@[0]@);
            assert(ov[0] == outputs@[0]@);
        }
        if outputs[0].channel_count() != channel_count {
            return;
        }
        let mut c: usize = 0;
        while c < channel_count
            invariant
                *self == *old(self),
                old(self).wf(),
                iv == crate::node::blocks_view(inputs@),
                ov == crate::node::blocks_view(outputs@),
                ov == crate::node::blocks_view(old(outputs)@),
                inputs@.len() >= 1,
                outputs@.len() >= 1,
                input == &inputs@[0],
                channel_count == input@.len(),
                ov[0].len() == channel_count,
                0 <= c <= channel_count,
                forall|j: int| 0 <= j < c ==> (#[trigger] iv[0][j]).len() == ov[0][j].len(),
            decreases channel_count - c,
        {
            if input.channel_data(c).len() != outputs[0].channel_data(c).len() {
                proof {
                    assert(iv[0][c as int].len() != ov[0][c as int].len());
                }
                return;
            }
            c += 1;
        }
        proof {
            assert(filter_shapes_ok(iv, ov));
        }
        let ghost pre = *self;
        self.ensure_channels(channel_count);
        let ghost mid = *self;
        let output = &mut outputs[0];
        self.filter(input, output);
        proof {
            assert forall|c2: int|
                0 <= c2 < channel_count implies #[trigger] self.channel_state(c2) == (if run_fits(
                pre.coeffs(),
                pre.resized_state(c2),
                iv[0][c2],
            ) {
                run_states(
                    pre.coeffs(),
                    pre.resized_state(c2),
                    iv[0][c2],
                    iv[0][c2].len() as int,
                )
            } else {
                pre.resized_state(c2)
            }) by {
                assert(iv[0][c2] == input@[c2]);
                assert(mid.coeffs() == pre.coeffs());
                assert(mid.channel_state(c2) == pre.resized_state(c2));
                if run_fits(mid.coeffs(), mid.channel_state(c2), input@[c2]) {
                    assert(ints_of(outputs@[0]@[c2]) == run_outputs(
                        mid.coeffs(),
                        mid.channel_state(c2),
                        input@[c2],
                    ));
                    assert(self.channel_state(c2) == run_states(
                        mid.coeffs(),
                        mid.channel_state(c2),
                        input@[c2],
                        input@[c2].len() as int,
                    ));
                } else {
                    assert(ints_of(outputs@[0]@[c2]) == zero_states(input@[c2].len()));
                    assert(self.channel_state(c2) == mid.channel_state(c2));
                }
            }
            let rv = pre.rendered(iv, ov, timestamp, sample_rate);
            assert forall|i: int|
                0 <= i < outputs@.len() implies crate::node::blocks_view(outputs@)[i] =~~= rv[i] by {
                assert(crate::node::blocks_view(outputs@)[i] == outputs@[i]@);
                if i == 0 {
                    assert forall|j: int|
                        0 <= j < channel_count implies outputs@[0]@[j] =~= rv[0][j] by {
                        assert(iv[0][j] == input@[j]);
                        if run_fits(pre.coeffs(), pre.resized_state(j), input@[j]) {
                            assert(ints_of(outputs@[0]@[j]) == run_outputs(
                                pre.coeffs(),
                                pre.resized_state(j),
                                input@[j],
                            ));
                            assert forall|k: int|
                                0 <= k < input@[j].len() implies outputs@[0]@[j][k] == rv[0][j][k] by {
                                assert(ints_of(outputs@[0]@[j])[k] == run_outputs(
                                    pre.coeffs(),
                                    pre.resized_state(j),
                                    input@[j],
                                )[k]);
                            }
                        } else {
                            assert(ints_of(outputs@[0]@[j]) == zero_states(input@[j].len()));
                            assert forall|k: int|
                                0 <= k < input@[j].len() implies outputs@[0]@[j][k] == rv[0][j][k] by {
                                assert(ints_of(outputs@[0]@[j])[k] == zero_states(
                                    input@[j].len(),
                                )[k]);
                            }
                        }
                    }
                } else {
                    assert(rv[i] == ov[i]);
                    assert(ov[i] == old(outputs)@[i]@);
                }
            }
            assert(crate::node::blocks_view(outputs@) =~= rv);
        }
    }

    fn tail_time(&self) -> (r: bool) {
        false
    }
}

/// Filter one sample against `coeffs` with the accumulators `st`.
fn tick_channel(coeffs: &Vec<(i64, i64)>, st: &mut Vec<i64>, x: i64) -> (y: i64)
    requires
        coeffs@.len() >= 1,
        old(st)@.len() == coeffs@.len() - 1,
        tick_fits(coeffs@, ints_of(old(st)@), x as int),
    ensures
        final(st)@.len() == old(st)@.len(),
        y as int == tick_y(coeffs@, ints_of(old(st)@), x as int),
        ints_of(final(st)@) == tick_st(coeffs@, ints_of(old(st)@), x as int),
{
    let ghost st0 = ints_of(old(st)@);
    let c0 = coeffs[0].0;
    let s0: i128 = if st.len() > 0 {
        st[0] as i128
    } else {
        0
    };
    let y128: i128 = mul_i64(c0, x) + s0;
    proof {
        assert(y128 == tick_y(coeffs@, st0, x as int));
    }
    let y = y128 as i64;
    let mut i: usize = 0;
    while i < st.len()
        invariant
            coeffs@.len() >= 1,
            st@.len() == old(st)@.len(),
            old(st)@.len() == coeffs@.len() - 1,
            0 <= i <= st@.len(),
            st0 == ints_of(old(st)@),
            tick_fits(coeffs@, st0, x as int),
            y as int == tick_y(coeffs@, st0, x as int),
            forall|j: int| 0 <= j < i ==> st@[j] as int == tick_st(coeffs@, st0, x as int)[j],
            forall|j: int| i <= j < st@.len() ==> st@[j] == old(st)@[j],
        decreases st@.len() - i,
    {
        let ff = coeffs[i + 1].0;
        let fb = coeffs[i + 1].1;
        let nxt: i128 = if i + 1 < st.len() {
            st[i + 1] as i128
        } else {
            0
        };
        let v128: i128 = mul_i64(ff, x) - mul_i64(fb, y) + nxt;
        proof {
            assert(nxt == st_at(st0, i + 1));
            assert(v128 == tick_st(coeffs@, st0, x as int)[i as int]);
        }
        st[i] = v128 as i64;
        i += 1;
    }
    proof {
        assert(ints_of(st@) =~= tick_st(coeffs@, st0, x as int));
    }
    y
}

/// A vector of `n` zero samples.
fn zero_samples(n: usize) -> (r: Vec<i64>)
    ensures
        r@.len() == n,
        ints_of(r@) == zero_states(n as nat),
{
    let mut r: Vec<i64> = Vec::new();
    let mut i: usize = 0;
    while i < n
        invariant
            0 <= i <= n,
            r@.len() == i,
            forall|j: int| 0 <= j < i ==> r@[j] == 0i64,
        decreases n - i,
    {
        r.push(0);
        i += 1;
    }
    proof {
        assert(ints_of(r@) =~= zero_states(n as nat));
    }
    r
}

/// Whether filtering the whole of `xs` from the state `st` stays within the
/// representable sample range.  The run is simulated on a scratch copy of the
/// state; nothing is modified.
fn check_fits(coeffs: &Vec<(i64, i64)>, st: &Vec<i64>, xs: &Vec<i64>) -> (b: bool)
    requires
        coeffs@.len() >= 1,
        st@.len() == coeffs@.len() - 1,
    ensures
        b == run_fits(coeffs@, ints_of(st@), xs@),
{
    let ghost st0 = ints_of(st@);
    let mut sim = copy_samples(st);
    let mut n: usize = 0;
    while n < xs.len()
        invariant
            coeffs@.len() >= 1,
            st@.len() == coeffs@.len() - 1,
            st0 == ints_of(st@),
            sim@.len() == st@.len(),
            0 <= n <= xs@.len(),
            ints_of(sim@) == run_states(coeffs@, st0, xs@, n as int),
            forall|m: int|
                0 <= m < n ==> tick_fits(coeffs@, #[trigger] run_states(coeffs@, st0, xs@, m), x_at(xs@, m)),
        decreases xs@.len() - n,
    {
        let x = xs[n];
        let ghost stn = ints_of(sim@);
        let c0 = coeffs[0].0;
        let s0: i128 = if sim.len() > 0 {
            sim[0] as i128
        } else {
            0
        };
        let y128: i128 = mul_i64(c0, x) + s0;
        proof {
            assert(y128 == tick_y(coeffs@, stn, x as int));
        }
        if y128 > i64::MAX as i128 || y128 < i64::MIN as i128 {
            proof {
                assert(!tick_fits(coeffs@, run_states(coeffs@, st0, xs@, n as int), x_at(xs@, n as int)));
            }
            return false;
        }
        let y = y128 as i64;
        let mut i: usize = 0;
        while i < sim.len()
            invariant
                coeffs@.len() >= 1,
                sim@.len() == st@.len(),
                st@.len() == coeffs@.len() - 1,
                0 <= i <= sim@.len(),
                0 <= n < xs@.len(),
                x == xs@[n as int],
                st0 == ints_of(st@),
                stn == run_states(coeffs@, st0, xs@, n as int),
                stn.len() == sim@.len(),
                y as int == tick_y(coeffs@, stn, x as int),
                i64::MIN <= tick_y(coeffs@, stn, x as int) <= i64::MAX,
                forall|j: int| 0 <= j < i ==> sim@[j] as int == tick_st(coeffs@, stn, x as int)[j],
                forall|j: int|
                    0 <= j < i ==> i64::MIN <= #[trigger] tick_st(coeffs@, stn, x as int)[j]
                        <= i64::MAX,
                forall|j: int| i <= j < sim@.len() ==> sim@[j] as int == stn[j],
            decreases sim@.len() - i,
        {
            let ff = coeffs[i + 1].0;
            let fb = coeffs[i + 1].1;
            let nxt: i128 = if i + 1 < sim.len() {
                sim[i + 1] as i128
            } else {
                0
            };
            let v128: i128 = mul_i64(ff, x) - mul_i64(fb, y) + nxt;
            proof {
                assert(nxt == st_at(stn, i + 1));
                assert(v128 == tick_st(coeffs@, stn, x as int)[i as int]);
            }
            if v128 > i64::MAX as i128 || v128 < i64::MIN as i128 {
                proof {
                    assert(!tick_fits(coeffs@, run_states(coeffs@, st0, xs@, n as int), x_at(xs@, n as int)));
                }
                return false;
            }
            sim[i] = v128 as i64;
            i += 1;
        }
        proof {
            assert(tick_fits(coeffs@, stn, x as int));
            assert(ints_of(sim@) =~= tick_st(coeffs@, stn, x as int));
            assert(run_states(coeffs@, st0, xs@, n + 1) == tick_st(coeffs@, stn, x_at(xs@, n as int)));
        }
        n += 1;
    }
    true
}

/// The feedforward part of the difference equation from term `k` on:
/// `Σ_{j ≥ k} ff[j] · x[n − j]`.
pub open spec fn conv_ff(c: Seq<(i64, i64)>, xs: Seq<i64>, n: int, k: int) -> int
    decreases c.len() - k,
{
    if k < 0 || k >= c.len() {
        0
    } else {
        c[k].0 * x_at(xs, n - k) + conv_ff(c, xs, n, k + 1)
    }
}

/// The feedback part of the difference equation from term `k` on:
/// `Σ_{j ≥ k, j ≥ 1} fb[j] · y[n − j]`.
pub open spec fn fb_sum(c: Seq<(i64, i64)>, xs: Seq<i64>, n: int, k: int) -> int
    decreases n, c.len() - k,
{
    if k < 1 || k >= c.len() {
        0
    } else {
        (if n - k >= 0 {
            c[k].1 * y_direct(c, xs, n - k)
        } else {
            0
        }) + fb_sum(c, xs, n, k + 1)
    }
}

/// Direct evaluation of the normalized difference equation:
/// `y[n] = Σ_k ff[k]·x[n−k] − Σ_{k ≥ 1} fb[k]·y[n−k]`, zero before the input
/// starts.
pub open spec fn y_direct(c: Seq<(i64, i64)>, xs: Seq<i64>, n: int) -> int
    decreases n, c.len() + 1,
{
    if n < 0 || c.len() == 0 {
        0
    } else {
        conv_ff(c, xs, n, 0) - fb_sum(c, xs, n, 1)
    }
}

/// Closed form of accumulator `i` after the first `m` samples.
pub open spec fn state_closed(c: Seq<(i64, i64)>, xs: Seq<i64>, m: int, i: int) -> int
    decreases c.len() - i,
{
    if i < 0 || i + 1 >= c.len() {
        0
    } else {
        c[i + 1].0 * x_at(xs, m - 1) - c[i + 1].1 * y_direct(c, xs, m - 1) + state_closed(
            c,
            xs,
            m - 1,
            i + 1,
        )
    }
}

proof fn lemma_conv_ff_before_start(c: Seq<(i64, i64)>, xs: Seq<i64>, n: int, k: int)
    requires
        n < k,
    ensures
        conv_ff(c, xs, n, k) == 0,
    decreases c.len() - k,
{
    if k < 0 || k >= c.len() {
    } else {
        lemma_conv_ff_before_start(c, xs, n, k + 1);
        assert(x_at(xs, n - k) == 0);
    }
}

proof fn lemma_state_closed_before_start(c: Seq<(i64, i64)>, xs: Seq<i64>, m: int, i: int)
    requires
        m <= 0,
    ensures
        state_closed(c, xs, m, i) == 0,
    decreases c.len() - i,
{
    if i < 0 || i + 1 >= c.len() {
    } else {
        lemma_state_closed_before_start(c, xs, m - 1, i + 1);
        assert(x_at(xs, m - 1) == 0);
        assert(y_direct(c, xs, m - 1) == 0);
    }
}

proof fn lemma_state_closed_sums(c: Seq<(i64, i64)>, xs: Seq<i64>, u: int, i: int)
    requires
        0 <= i,
    ensures
        state_closed(c, xs, u - i, i) == conv_ff(c, xs, u, i + 1) - fb_sum(c, xs, u, i + 1),
    decreases c.len() - i,
{
    if i + 1 >= c.len() {
    } else {
        lemma_state_closed_sums(c, xs, u, i + 1);
        if u - i - 1 >= 0 {
        } else {
            assert(y_direct(c, xs, u - i - 1) == 0);
        }
    }
}

proof fn lemma_run_states_closed(c: Seq<(i64, i64)>, xs: Seq<i64>, m: int)
    requires
        c.len() >= 1,
        c[0].1 == 1i64,
        0 <= m <= xs.len(),
    ensures
        run_states(c, zero_states((c.len() - 1) as nat), xs, m).len() == c.len() - 1,
        forall|i: int|
            0 <= i < c.len() - 1 ==> #[trigger] run_states(
                c,
                zero_states((c.len() - 1) as nat),
                xs,
                m,
            )[i] == state_closed(c, xs, m, i),
    decreases m,
{
    let st0 = zero_states((c.len() - 1) as nat);
    if m == 0 {
        assert forall|i: int| 0 <= i < c.len() - 1 implies #[trigger] run_states(
            c,
            st0,
            xs,
            0,
        )[i] == state_closed(c, xs, 0, i) by {
            lemma_state_closed_before_start(c, xs, 0, i);
        }
    } else {
        lemma_run_states_closed(c, xs, m - 1);
        let prev = run_states(c, st0, xs, m - 1);
        let x = x_at(xs, m - 1);
        lemma_state_closed_sums(c, xs, m - 1, 0);
        if c.len() - 1 > 0 {
            assert(st_at(prev, 0) == state_closed(c, xs, m - 1, 0));
        } else {
            assert(st_at(prev, 0) == 0);
            assert(state_closed(c, xs, m - 1, 0) == 0);
        }
        assert(conv_ff(c, xs, m - 1, 0) == c[0].0 * x + conv_ff(c, xs, m - 1, 1));
        assert(tick_y(c, prev, x) == y_direct(c, xs, m - 1));
        assert forall|i: int| 0 <= i < c.len() - 1 implies #[trigger] run_states(
            c,
            st0,
            xs,
            m,
        )[i] == state_closed(c, xs, m, i) by {
            assert(run_states(c, st0, xs, m) == tick_st(c, prev, x));
            if i + 1 < c.len() - 1 {
                assert(st_at(prev, i + 1) == state_closed(c, xs, m - 1, i + 1));
            } else {
                assert(st_at(prev, i + 1) == 0);
                assert(state_closed(c, xs, m - 1, i + 1) == 0);
            }
        }
    }
}

/// The stateful per-sample recurrence, started from zeroed accumulators,
/// computes exactly the direct evaluation of the normalized difference
/// equation `y[n] = Σ_k ff[k]·x[n−k] − Σ_{k ≥ 1} fb[k]·y[n−k]` — for every
/// input block, the unit impulse in particular.
pub proof fn lemma_filter_matches_difference_equation(c: Seq<(i64, i64)>, xs: Seq<i64>, n: int)
    requires
        c.len() >= 1,
        c[0].1 == 1i64,
        0 <= n < xs.len(),
    ensures
        run_y(c, zero_states((c.len() - 1) as nat), xs, n) == y_direct(c, xs, n),
{
    let st0 = zero_states((c.len() - 1) as nat);
    lemma_run_states_closed(c, xs, n);
    lemma_state_closed_sums(c, xs, n, 0);
    let stn = run_states(c, st0, xs, n);
    if c.len() - 1 > 0 {
        assert(st_at(stn, 0) == state_closed(c, xs, n, 0));
    } else {
        assert(st_at(stn, 0) == 0);
        assert(state_closed(c, xs, n, 0) == 0);
    }
    assert(conv_ff(c, xs, n, 0) == c[0].0 * x_at(xs, n) + conv_ff(c, xs, n, 1));
}

/// Normalization makes the first feedback coefficient exactly one, for every
/// coefficient pair whose leading feedback coefficient is nonzero.
pub proof fn lemma_normalized_leading_feedback(c: Seq<(i64, i64)>)
    requires
        c.len() >= 1,
        c[0].1 != 0i64,
    ensures
        normalized_coeffs(c)[0].1 == 1,
{
    lemma_div_trunc_self(c[0].1 as int);
}

/// Filter the whole block `xs`, advancing `st` and returning the outputs.
fn filter_channel(coeffs: &Vec<(i64, i64)>, st: &mut Vec<i64>, xs: &Vec<i64>) -> (ys: Vec<i64>)
    requires
        coeffs@.len() >= 1,
        old(st)@.len() == coeffs@.len() - 1,
        run_fits(coeffs@, ints_of(old(st)@), xs@),
    ensures
        final(st)@.len() == old(st)@.len(),
        ys@.len() == xs@.len(),
        ints_of(ys@) == run_outputs(coeffs@, ints_of(old(st)@), xs@),
        ints_of(final(st)@) == run_states(coeffs@, ints_of(old(st)@), xs@, xs@.len() as int),
{
    let ghost st0 = ints_of(old(st)@);
    let mut ys: Vec<i64> = Vec::new();
    let mut n: usize = 0;
    while n < xs.len()
        invariant
            coeffs@.len() >= 1,
            st@.len() == old(st)@.len(),
            old(st)@.len() == coeffs@.len() - 1,
            st0 == ints_of(old(st)@),
            run_fits(coeffs@, st0, xs@),
            0 <= n <= xs@.len(),
            ys@.len() == n,
            ints_of(st@) == run_states(coeffs@, st0, xs@, n as int),
            forall|m: int| 0 <= m < n ==> ys@[m] as int == run_y(coeffs@, st0, xs@, m),
        decreases xs@.len() - n,
    {
        let x = xs[n];
        let y = tick_channel(coeffs, st, x);
        ys.push(y);
        n += 1;
    }
    proof {
        assert(ints_of(ys@) =~= run_outputs(coeffs@, st0, xs@));
    }
    ys
}

} // verus!
