//! A transformer block: attention and a feed-forward layer, each on a residual branch.
//!
//! The block is written against [`Layers`], which supplies the tensors and the layers. Nothing is
//! taken for granted of what a layer computes: the contracts say which layer is applied to what,
//! in terms of what each call gave, and hold for every choice of layers.

use vstd::prelude::*;

use crate::config::{ModelConfig, NormPlacement};
use crate::scalar::Scalar;

verus! {

/// Which positions a position attends to.
#[derive(Clone, Copy, Debug, PartialEq, Eq, Structural)]
pub enum Attend {
    /// Itself and what comes before it.
    Causal,
    /// All of them.
    Bidirectional,
}

/// What an attention layer is built from.
#[derive(Clone, Copy, Debug)]
pub struct GroupedQueryAttentionConfig {
    pub d_model: usize,
    pub n_heads: usize,
    pub n_kv_heads: usize,
    pub max_seq_len: usize,
    pub rope_theta: Scalar,
    pub dropout: Scalar,
    pub qk_norm: bool,
    pub norm_eps: Scalar,
}

/// What a feed-forward layer is built from.
#[derive(Clone, Copy, Debug)]
pub struct SwiGluFeedForwardConfig {
    pub d_model: usize,
    pub d_ff: usize,
    pub dropout: Scalar,
}

/// What a normalization is built from.
#[derive(Clone, Copy, Debug)]
pub struct RmsNormConfig {
    pub d_model: usize,
    pub epsilon: Scalar,
}

/// The tensors and the layers that a block is made of.
///
/// A block applies its layers and does nothing else, so it fails where one of them does.
pub trait Layers: Sized {
    type Tensor: Clone;

    type Device;

    type Attention;

    type FeedForward;

    type Norm;

    /// The keys and values of the positions seen so far.
    type Cache;

    fn init_attention(config: GroupedQueryAttentionConfig, device: &Self::Device) -> Self::Attention;

    fn init_feed_forward(config: SwiGluFeedForwardConfig, device: &Self::Device) -> Self::FeedForward;

    fn init_norm(config: RmsNormConfig, device: &Self::Device) -> Self::Norm;

    fn attend_as(attn: &Self::Attention, x: Self::Tensor, attend: Attend) -> Self::Tensor;

    /// Attends over the cache and `x`, and hands back the cache with `x` in it.
    fn attend_cached(attn: &Self::Attention, x: Self::Tensor, cache: Self::Cache) -> (
        Self::Tensor,
        Self::Cache,
    );

    fn feed_forward(ffn: &Self::FeedForward, x: Self::Tensor) -> Self::Tensor;

    fn normalize(norm: &Self::Norm, x: Self::Tensor) -> Self::Tensor;

    fn sum(a: Self::Tensor, b: Self::Tensor) -> Self::Tensor;
}

/// The attention layer that a model asks for.
pub open spec fn attention_of(cfg: ModelConfig) -> GroupedQueryAttentionConfig {
    GroupedQueryAttentionConfig {
        d_model: cfg.d_model,
        n_heads: cfg.n_heads,
        n_kv_heads: cfg.n_kv_heads,
        max_seq_len: cfg.max_seq_len,
        rope_theta: cfg.rope_theta,
        dropout: cfg.dropout,
        qk_norm: cfg.qk_norm,
        norm_eps: cfg.norm_eps,
    }
}

/// The feed-forward layer that a model asks for.
pub open spec fn feed_forward_of(cfg: ModelConfig) -> SwiGluFeedForwardConfig {
    SwiGluFeedForwardConfig { d_model: cfg.d_model, d_ff: cfg.d_ff, dropout: cfg.dropout }
}

/// The normalizations that a model asks for.
pub open spec fn norm_of(cfg: ModelConfig) -> RmsNormConfig {
    RmsNormConfig { d_model: cfg.d_model, epsilon: cfg.norm_eps }
}

/// A transformer block.
pub struct Block<L: Layers> {
    pub attn: L::Attention,
    pub ffn: L::FeedForward,
    pub attn_norm: L::Norm,
    pub ffn_norm: L::Norm,
    pub placement: NormPlacement,
}

impl<L: Layers> Block<L> {
    /// `b` came of attending over `a`: through the cache where there is one, else as `attend`
    /// says. `after` is the cache as the layer left it.
    pub open spec fn attends(
        self,
        a: L::Tensor,
        cache: Option<L::Cache>,
        attend: Attend,
        b: L::Tensor,
        after: Option<L::Cache>,
    ) -> bool {
        match cache {
            Some(c) => after matches Some(d) && call_ensures(
                L::attend_cached,
                (&self.attn, a, c),
                (b, d),
            ),
            None => after is None && call_ensures(L::attend_as, (&self.attn, a, attend), b),
        }
    }

    /// `t` is what the attention is given on `x`: `x` normalized, or `x` itself.
    pub open spec fn attention_input(self, x: L::Tensor, t: L::Tensor) -> bool {
        match self.placement {
            NormPlacement::Pre => call_ensures(L::normalize, (&self.attn_norm, x), t),
            NormPlacement::Post => t == x,
        }
    }

    /// `y` came of the attention branch on `x`.
    pub open spec fn attention_branch(
        self,
        x: L::Tensor,
        cache: Option<L::Cache>,
        attend: Attend,
        y: L::Tensor,
        after: Option<L::Cache>,
    ) -> bool {
        match self.placement {
            NormPlacement::Pre => exists|kept: L::Tensor, normed: L::Tensor, branch: L::Tensor|
                {
                    &&& #[trigger] cloned(x, kept)
                    &&& #[trigger] call_ensures(L::normalize, (&self.attn_norm, x), normed)
                    &&& #[trigger] self.attends(normed, cache, attend, branch, after)
                    &&& call_ensures(L::sum, (kept, branch), y)
                },
            NormPlacement::Post => exists|kept: L::Tensor, branch: L::Tensor, total: L::Tensor|
                {
                    &&& #[trigger] cloned(x, kept)
                    &&& #[trigger] self.attends(x, cache, attend, branch, after)
                    &&& #[trigger] call_ensures(L::sum, (kept, branch), total)
                    &&& call_ensures(L::normalize, (&self.attn_norm, total), y)
                },
        }
    }

    /// `y` came of the feed-forward branch on `x`.
    pub open spec fn feed_forward_branch(self, x: L::Tensor, y: L::Tensor) -> bool {
        match self.placement {
            NormPlacement::Pre => exists|copy: L::Tensor, normed: L::Tensor, branch: L::Tensor|
                {
                    &&& #[trigger] cloned(x, copy)
                    &&& #[trigger] call_ensures(L::normalize, (&self.ffn_norm, copy), normed)
                    &&& #[trigger] call_ensures(L::feed_forward, (&self.ffn, normed), branch)
                    &&& call_ensures(L::sum, (x, branch), y)
                },
            NormPlacement::Post => exists|copy: L::Tensor, branch: L::Tensor, total: L::Tensor|
                {
                    &&& #[trigger] cloned(x, copy)
                    &&& #[trigger] call_ensures(L::feed_forward, (&self.ffn, copy), branch)
                    &&& #[trigger] call_ensures(L::sum, (x, branch), total)
                    &&& call_ensures(L::normalize, (&self.ffn_norm, total), y)
                },
        }
    }

    /// `y` and `after` came of the block on `x`: the attention branch, then the feed-forward one.
    pub open spec fn passes(
        self,
        x: L::Tensor,
        cache: Option<L::Cache>,
        attend: Attend,
        y: L::Tensor,
        after: Option<L::Cache>,
    ) -> bool {
        exists|middle: L::Tensor| #[trigger]
            self.attention_branch(x, cache, attend, middle, after) && self.feed_forward_branch(
                middle,
                y,
            )
    }

    /// `y` came of [`Block::forward`] on `x`.
    pub open spec fn forwards(self, x: L::Tensor, y: L::Tensor) -> bool {
        self.passes(x, None, Attend::Causal, y, None)
    }

    /// `y` came of [`Block::forward_as`] on `x`.
    pub open spec fn forwards_as(self, x: L::Tensor, attend: Attend, y: L::Tensor) -> bool {
        self.passes(x, None, attend, y, None)
    }

    /// `y` and `after` came of [`Block::forward_cached`] on `x` and `cache`.
    pub open spec fn forwards_cached(self, x: L::Tensor, cache: L::Cache, y: L::Tensor, after: L::Cache) -> bool {
        self.passes(x, Some(cache), Attend::Causal, y, Some(after))
    }

    /// Builds the block that a model asks for.
    pub fn new(cfg: &ModelConfig, device: &L::Device) -> (r: Block<L>)
        ensures
            call_ensures(L::init_attention, (attention_of(*cfg), device), r.attn),
            call_ensures(L::init_feed_forward, (feed_forward_of(*cfg), device), r.ffn),
            call_ensures(L::init_norm, (norm_of(*cfg), device), r.attn_norm),
            call_ensures(L::init_norm, (norm_of(*cfg), device), r.ffn_norm),
            r.placement == cfg.norm_placement,
    {
        Block {
            attn: L::init_attention(
                GroupedQueryAttentionConfig {
                    d_model: cfg.d_model,
                    n_heads: cfg.n_heads,
                    n_kv_heads: cfg.n_kv_heads,
                    max_seq_len: cfg.max_seq_len,
                    rope_theta: cfg.rope_theta,
                    dropout: cfg.dropout,
                    qk_norm: cfg.qk_norm,
                    norm_eps: cfg.norm_eps,
                },
                device,
            ),
            ffn: L::init_feed_forward(
                SwiGluFeedForwardConfig { d_model: cfg.d_model, d_ff: cfg.d_ff, dropout: cfg.dropout },
                device,
            ),
            attn_norm: L::init_norm(
                RmsNormConfig { d_model: cfg.d_model, epsilon: cfg.norm_eps },
                device,
            ),
            ffn_norm: L::init_norm(
                RmsNormConfig { d_model: cfg.d_model, epsilon: cfg.norm_eps },
                device,
            ),
            placement: cfg.norm_placement,
        }
    }

    /// The block, each position attending to what comes before it.
    pub fn forward(&self, x: L::Tensor) -> (y: L::Tensor)
        ensures
            self.forwards(x, y),
    {
        self.forward_inner(x, None, Attend::Causal).0
    }

    /// The block under an explicit attention mode. Only the attention is told of it.
    pub fn forward_as(&self, x: L::Tensor, attend: Attend) -> (y: L::Tensor)
        ensures
            self.forwards_as(x, attend, y),
    {
        self.forward_inner(x, None, attend).0
    }

    /// The block over what the cache holds and `x`; hands back the cache with `x` in it.
    pub fn forward_cached(&self, x: L::Tensor, cache: L::Cache) -> (r: (L::Tensor, L::Cache))
        ensures
            self.forwards_cached(x, cache, r.0, r.1),
    {
        let (y, after) = self.forward_inner(x, Some(cache), Attend::Causal);
        (y, after.unwrap())
    }

    /// The block through the cache where there is one, else under `attend`.
    pub fn forward_inner(&self, x: L::Tensor, cache: Option<L::Cache>, attend: Attend) -> (r: (
        L::Tensor,
        Option<L::Cache>,
    ))
        ensures
            self.passes(x, cache, attend, r.0, r.1),
            r.1 is Some == cache is Some,
    {
        let ghost input = x;
        match self.placement {
            NormPlacement::Pre => {
                let kept = x.clone();
                let normed = L::normalize(&self.attn_norm, x);
                let (branch, after) = self.attend(normed, cache, attend);
                let x = L::sum(kept, branch);
                assert(cloned(input, kept));
                assert(call_ensures(L::normalize, (&self.attn_norm, input), normed));
                assert(self.attention_branch(input, cache, attend, x, after));
                let copy = x.clone();
                let normed = L::normalize(&self.ffn_norm, copy);
                let h = L::feed_forward(&self.ffn, normed);
                let y = L::sum(x, h);
                assert(cloned(x, copy));
                assert(call_ensures(L::normalize, (&self.ffn_norm, copy), normed));
                assert(self.feed_forward_branch(x, y));
                (y, after)
            },
            NormPlacement::Post => {
                let kept = x.clone();
                let (branch, after) = self.attend(x, cache, attend);
                let total = L::sum(kept, branch);
                let x = L::normalize(&self.attn_norm, total);
                assert(cloned(input, kept));
                assert(call_ensures(L::sum, (kept, branch), total));
                assert(self.attention_branch(input, cache, attend, x, after));
                let copy = x.clone();
                let h = L::feed_forward(&self.ffn, copy);
                let total = L::sum(x, h);
                let y = L::normalize(&self.ffn_norm, total);
                assert(cloned(x, copy));
                assert(call_ensures(L::sum, (x, h), total));
                assert(self.feed_forward_branch(x, y));
                (y, after)
            },
        }
    }

    fn attend(&self, x: L::Tensor, cache: Option<L::Cache>, attend: Attend) -> (r: (
        L::Tensor,
        Option<L::Cache>,
    ))
        ensures
            self.attends(x, cache, attend, r.0, r.1),
    {
        match cache {
            Some(c) => {
                let (y, after) = L::attend_cached(&self.attn, x, c);
                (y, Some(after))
            },
            None => (L::attend_as(&self.attn, x, attend), None),
        }
    }
}

/// Whether the layers of this block are functions: each gives one result on one input, and a
/// clone is equal to what it was cloned from. Other layers of the same types need not be.
pub open spec fn layers_are_functions<L: Layers>(block: Block<L>) -> bool {
    &&& forall|a: L::Tensor, b: L::Tensor| #[trigger] cloned(a, b) ==> a == b
    &&& forall|x: L::Tensor, attend: Attend, y: L::Tensor, z: L::Tensor|
        #[trigger] call_ensures(L::attend_as, (&block.attn, x, attend), y)
            && #[trigger] call_ensures(L::attend_as, (&block.attn, x, attend), z) ==> y == z
    &&& forall|
        x: L::Tensor,
        cache: L::Cache,
        y: (L::Tensor, L::Cache),
        z: (L::Tensor, L::Cache),
    |
        #[trigger] call_ensures(L::attend_cached, (&block.attn, x, cache), y)
            && #[trigger] call_ensures(L::attend_cached, (&block.attn, x, cache), z) ==> y == z
    &&& forall|x: L::Tensor, y: L::Tensor, z: L::Tensor|
        #[trigger] call_ensures(L::feed_forward, (&block.ffn, x), y) && #[trigger] call_ensures(
            L::feed_forward,
            (&block.ffn, x),
            z,
        ) ==> y == z
    &&& forall|x: L::Tensor, y: L::Tensor, z: L::Tensor|
        #[trigger] call_ensures(L::normalize, (&block.attn_norm, x), y) && #[trigger] call_ensures(
            L::normalize,
            (&block.attn_norm, x),
            z,
        ) ==> y == z
    &&& forall|x: L::Tensor, y: L::Tensor, z: L::Tensor|
        #[trigger] call_ensures(L::normalize, (&block.ffn_norm, x), y) && #[trigger] call_ensures(
            L::normalize,
            (&block.ffn_norm, x),
            z,
        ) ==> y == z
    &&& forall|a: L::Tensor, b: L::Tensor, y: L::Tensor, z: L::Tensor|
        #[trigger] call_ensures(L::sum, (a, b), y) && #[trigger] call_ensures(L::sum, (a, b), z)
            ==> y == z
}

/// A block of layers that are functions is a function.
pub proof fn block_is_a_function<L: Layers>(
    block: Block<L>,
    x: L::Tensor,
    cache: Option<L::Cache>,
    attend: Attend,
    y: L::Tensor,
    y_cache: Option<L::Cache>,
    z: L::Tensor,
    z_cache: Option<L::Cache>,
)
    requires
        layers_are_functions(block),
        block.passes(x, cache, attend, y, y_cache),
        block.passes(x, cache, attend, z, z_cache),
    ensures
        y == z,
        y_cache == z_cache,
{
    let m = choose|m: L::Tensor| #[trigger]
        block.attention_branch(x, cache, attend, m, y_cache) && block.feed_forward_branch(m, y);
    let n = choose|n: L::Tensor| #[trigger]
        block.attention_branch(x, cache, attend, n, z_cache) && block.feed_forward_branch(n, z);
    assert(m == n && y_cache == z_cache);
}

/// The causal mode is exactly what `forward` does: the two have the same results, and one
/// result where the layers are functions.
pub proof fn causal_mode_is_forward<L: Layers>(block: Block<L>, x: L::Tensor, y: L::Tensor, z: L::Tensor)
    ensures
        block.forwards(x, y) <==> block.forwards_as(x, Attend::Causal, y),
        layers_are_functions(block) && block.forwards(x, y) && block.forwards_as(
            x,
            Attend::Causal,
            z,
        ) ==> y == z,
{
    if layers_are_functions(block) && block.forwards(x, y) && block.forwards_as(x, Attend::Causal, z) {
        block_is_a_function(block, x, None, Attend::Causal, y, None, z, None);
    }
}

/// The mode reaches the attention and nothing else: where the attention does the same in two
/// modes on what it is given, so does the block.
pub proof fn mode_reaches_only_the_attention<L: Layers>(
    block: Block<L>,
    one: Attend,
    other: Attend,
    x: L::Tensor,
    y: L::Tensor,
)
    requires
        forall|t: L::Tensor, b: L::Tensor|
            #![trigger block.attends(t, None, one, b, None)]
            #![trigger block.attends(t, None, other, b, None)]
            block.attention_input(x, t) ==> (block.attends(t, None, one, b, None) <==> block.attends(
                t,
                None,
                other,
                b,
                None,
            )),
    ensures
        block.forwards_as(x, one, y) <==> block.forwards_as(x, other, y),
{
    if block.forwards_as(x, one, y) {
        let m = choose|m: L::Tensor| #[trigger]
            block.attention_branch(x, None, one, m, None) && block.feed_forward_branch(m, y);
        lemma_same_attention_same_branch(block, x, None, one, None, None, other, None, m);
    }
    if block.forwards_as(x, other, y) {
        let m = choose|m: L::Tensor| #[trigger]
            block.attention_branch(x, None, other, m, None) && block.feed_forward_branch(m, y);
        lemma_same_attention_same_branch(block, x, None, other, None, None, one, None, m);
    }
}

/// What attending one way gives on what the branch is given, attending another way gives too:
/// then so does the branch.
proof fn lemma_same_attention_same_branch<L: Layers>(
    block: Block<L>,
    x: L::Tensor,
    cache: Option<L::Cache>,
    attend: Attend,
    after: Option<L::Cache>,
    other_cache: Option<L::Cache>,
    other_attend: Attend,
    other_after: Option<L::Cache>,
    m: L::Tensor,
)
    requires
        forall|t: L::Tensor, b: L::Tensor|
            block.attention_input(x, t) && #[trigger] block.attends(t, cache, attend, b, after)
                ==> block.attends(t, other_cache, other_attend, b, other_after),
        block.attention_branch(x, cache, attend, m, after),
    ensures
        block.attention_branch(x, other_cache, other_attend, m, other_after),
        exists|t: L::Tensor, b: L::Tensor|
            block.attention_input(x, t) && #[trigger] block.attends(t, cache, attend, b, after),
{
    match block.placement {
        NormPlacement::Pre => {
            let (kept, normed, branch) = choose|kept: L::Tensor, normed: L::Tensor, branch: L::Tensor|
                {
                    &&& #[trigger] cloned(x, kept)
                    &&& #[trigger] call_ensures(L::normalize, (&block.attn_norm, x), normed)
                    &&& #[trigger] block.attends(normed, cache, attend, branch, after)
                    &&& call_ensures(L::sum, (kept, branch), m)
                };
            assert(block.attention_input(x, normed));
            assert(block.attends(normed, other_cache, other_attend, branch, other_after));
        },
        NormPlacement::Post => {
            let (kept, branch, total) = choose|kept: L::Tensor, branch: L::Tensor, total: L::Tensor|
                {
                    &&& #[trigger] cloned(x, kept)
                    &&& #[trigger] block.attends(x, cache, attend, branch, after)
                    &&& #[trigger] call_ensures(L::sum, (kept, branch), total)
                    &&& call_ensures(L::normalize, (&block.attn_norm, total), m)
                };
            assert(block.attention_input(x, x));
            assert(block.attends(x, other_cache, other_attend, branch, other_after));
        },
    }
}

/// Where there is a cache, the mode makes no difference: the two modes have the same results, and
/// one result and one cache left behind where the layers are functions.
pub proof fn cache_overrides_the_mode<L: Layers>(
    block: Block<L>,
    x: L::Tensor,
    cache: L::Cache,
    one: Attend,
    other: Attend,
    y: L::Tensor,
    y_cache: Option<L::Cache>,
    z: L::Tensor,
    z_cache: Option<L::Cache>,
)
    ensures
        block.passes(x, Some(cache), one, y, y_cache) <==> block.passes(
            x,
            Some(cache),
            other,
            y,
            y_cache,
        ),
        layers_are_functions(block) && block.passes(x, Some(cache), one, y, y_cache) && block.passes(
            x,
            Some(cache),
            other,
            z,
            z_cache,
        ) ==> y == z && y_cache == z_cache,
{
    if block.passes(x, Some(cache), one, y, y_cache) {
        lemma_mode_ignored(block, x, cache, one, other, y, y_cache);
    }
    if block.passes(x, Some(cache), other, y, y_cache) {
        lemma_mode_ignored(block, x, cache, other, one, y, y_cache);
    }
    if layers_are_functions(block) && block.passes(x, Some(cache), one, y, y_cache) && block.passes(
        x,
        Some(cache),
        other,
        z,
        z_cache,
    ) {
        block_is_a_function(block, x, Some(cache), other, y, y_cache, z, z_cache);
    }
}

proof fn lemma_mode_ignored<L: Layers>(
    block: Block<L>,
    x: L::Tensor,
    cache: L::Cache,
    one: Attend,
    other: Attend,
    y: L::Tensor,
    after: Option<L::Cache>,
)
    requires
        block.passes(x, Some(cache), one, y, after),
    ensures
        block.passes(x, Some(cache), other, y, after),
{
    let m = choose|m: L::Tensor| #[trigger]
        block.attention_branch(x, Some(cache), one, m, after) && block.feed_forward_branch(m, y);
    lemma_same_attention_same_branch(
        block,
        x,
        Some(cache),
        one,
        after,
        Some(cache),
        other,
        after,
        m,
    );
}

/// A cached pass is the plain one where the cache acts so: if attending through the cache, on
/// what the branch is given, gives what attending causally gives, so does the block, and the
/// cache is left as that one call of the attention leaves it. Where the layers are functions, the
/// two have one result.
pub proof fn cached_pass_is_plain<L: Layers>(
    block: Block<L>,
    x: L::Tensor,
    cache: L::Cache,
    y: L::Tensor,
    after: L::Cache,
    z: L::Tensor,
)
    requires
        forall|t: L::Tensor, b: L::Tensor, d: L::Cache|
            block.attention_input(x, t) && #[trigger] call_ensures(
                L::attend_cached,
                (&block.attn, t, cache),
                (b, d),
            ) ==> call_ensures(L::attend_as, (&block.attn, t, Attend::Causal), b),
        block.forwards_cached(x, cache, y, after),
    ensures
        block.forwards(x, y),
        exists|t: L::Tensor, b: L::Tensor|
            block.attention_input(x, t) && #[trigger] call_ensures(
                L::attend_cached,
                (&block.attn, t, cache),
                (b, after),
            ),
        layers_are_functions(block) && block.forwards(x, z) ==> y == z,
{
    let causal = Attend::Causal;
    let m = choose|m: L::Tensor| #[trigger]
        block.attention_branch(x, Some(cache), causal, m, Some(after))
            && block.feed_forward_branch(m, y);
    assert forall|t: L::Tensor, b: L::Tensor|
        block.attention_input(x, t) && #[trigger] block.attends(
            t,
            Some(cache),
            causal,
            b,
            Some(after),
        ) implies block.attends(t, None, causal, b, None) by {
        assert(call_ensures(L::attend_cached, (&block.attn, t, cache), (b, after)));
    }
    lemma_same_attention_same_branch(
        block,
        x,
        Some(cache),
        causal,
        Some(after),
        None,
        causal,
        None,
        m,
    );
    let (t, b) = choose|t: L::Tensor, b: L::Tensor|
        block.attention_input(x, t) && #[trigger] block.attends(
            t,
            Some(cache),
            causal,
            b,
            Some(after),
        );
    assert(call_ensures(L::attend_cached, (&block.attn, t, cache), (b, after)));
    if layers_are_functions(block) && block.forwards(x, z) {
        block_is_a_function(block, x, None, causal, y, None, z, None);
    }
}

/// A block keeps the shape of its input if its layers do in this pass, wherever it normalizes. A
/// shape here is whatever the layers keep.
pub proof fn block_keeps_shape<L: Layers, S>(
    block: Block<L>,
    shape: spec_fn(L::Tensor) -> S,
    x: L::Tensor,
    cache: Option<L::Cache>,
    attend: Attend,
    y: L::Tensor,
    after: Option<L::Cache>,
)
    requires
        forall|a: L::Tensor, b: L::Tensor| #[trigger] cloned(a, b) ==> shape(a) == shape(b),
        forall|a: L::Tensor, b: L::Tensor| #[trigger]
            block.attends(a, cache, attend, b, after) ==> shape(a) == shape(b),
        forall|a: L::Tensor, b: L::Tensor| #[trigger]
            call_ensures(L::feed_forward, (&block.ffn, a), b) ==> shape(a) == shape(b),
        forall|a: L::Tensor, b: L::Tensor| #[trigger]
            call_ensures(L::normalize, (&block.attn_norm, a), b) ==> shape(a) == shape(b),
        forall|a: L::Tensor, b: L::Tensor| #[trigger]
            call_ensures(L::normalize, (&block.ffn_norm, a), b) ==> shape(a) == shape(b),
        forall|a: L::Tensor, b: L::Tensor, c: L::Tensor| #[trigger]
            call_ensures(L::sum, (a, b), c) && shape(a) == shape(b) ==> shape(c) == shape(a),
        block.passes(x, cache, attend, y, after),
    ensures
        shape(y) == shape(x),
{
}

/// A block is built from its model's settings, each layer from the settings of the same name: the
/// attention from the width, the heads, the key heads, the length, the rotary base, the dropout,
/// the flag and the epsilon; the feed-forward layer from the width, its own width and the dropout;
/// both normalizations from the width and the epsilon. The block normalizes where the model says.
pub proof fn block_is_built_from_its_model<L: Layers>(
    cfg: ModelConfig,
    device: L::Device,
    r: Block<L>,
)
    requires
        call_ensures(Block::<L>::new, (&cfg, &device), r),
    ensures
        exists|attention: GroupedQueryAttentionConfig|
            {
                &&& #[trigger] call_ensures(L::init_attention, (attention, &device), r.attn)
                &&& attention.d_model == cfg.d_model
                &&& attention.n_heads == cfg.n_heads
                &&& attention.n_kv_heads == cfg.n_kv_heads
                &&& attention.max_seq_len == cfg.max_seq_len
                &&& attention.rope_theta == cfg.rope_theta
                &&& attention.dropout == cfg.dropout
                &&& attention.qk_norm == cfg.qk_norm
                &&& attention.norm_eps == cfg.norm_eps
            },
        exists|feed_forward: SwiGluFeedForwardConfig|
            {
                &&& #[trigger] call_ensures(L::init_feed_forward, (feed_forward, &device), r.ffn)
                &&& feed_forward.d_model == cfg.d_model
                &&& feed_forward.d_ff == cfg.d_ff
                &&& feed_forward.dropout == cfg.dropout
            },
        exists|norm: RmsNormConfig|
            {
                &&& #[trigger] call_ensures(L::init_norm, (norm, &device), r.attn_norm)
                &&& norm.d_model == cfg.d_model
                &&& norm.epsilon == cfg.norm_eps
            },
        exists|norm: RmsNormConfig|
            {
                &&& #[trigger] call_ensures(L::init_norm, (norm, &device), r.ffn_norm)
                &&& norm.d_model == cfg.d_model
                &&& norm.epsilon == cfg.norm_eps
            },
        r.placement is Pre <==> cfg.norm_placement is Pre,
{
    assert(call_ensures(L::init_attention, (attention_of(cfg), &device), r.attn));
    assert(call_ensures(L::init_feed_forward, (feed_forward_of(cfg), &device), r.ffn));
    assert(call_ensures(L::init_norm, (norm_of(cfg), &device), r.attn_norm));
    assert(call_ensures(L::init_norm, (norm_of(cfg), &device), r.ffn_norm));
}

/// The layers of a model take each setting from the model's setting of the same name.
pub proof fn layers_take_the_models_settings(cfg: ModelConfig)
    ensures
        attention_of(cfg).d_model == cfg.d_model,
        attention_of(cfg).n_heads == cfg.n_heads,
        attention_of(cfg).n_kv_heads == cfg.n_kv_heads,
        attention_of(cfg).max_seq_len == cfg.max_seq_len,
        attention_of(cfg).rope_theta == cfg.rope_theta,
        attention_of(cfg).dropout == cfg.dropout,
        attention_of(cfg).qk_norm == cfg.qk_norm,
        attention_of(cfg).norm_eps == cfg.norm_eps,
        feed_forward_of(cfg).d_model == cfg.d_model,
        feed_forward_of(cfg).d_ff == cfg.d_ff,
        feed_forward_of(cfg).dropout == cfg.dropout,
        norm_of(cfg).d_model == cfg.d_model,
        norm_of(cfg).epsilon == cfg.norm_eps,
{
}

/// What the layers of a block compute, where each is a function of what it is given.
#[verifier::reject_recursive_types(T)]
#[verifier::reject_recursive_types(C)]
pub struct Functions<T, C> {
    pub attend_as: spec_fn(T, Attend) -> T,
    pub attend_cached: spec_fn(T, C) -> (T, C),
    pub feed_forward: spec_fn(T) -> T,
    pub attn_norm: spec_fn(T) -> T,
    pub ffn_norm: spec_fn(T) -> T,
    pub sum: spec_fn(T, T) -> T,
}

/// Whether the layers of a block compute these functions, and a clone is equal to what it was
/// cloned from.
pub open spec fn layers_compute<L: Layers>(block: Block<L>, f: Functions<L::Tensor, L::Cache>) -> bool {
    &&& forall|a: L::Tensor, b: L::Tensor| #[trigger] cloned(a, b) ==> a == b
    &&& forall|x: L::Tensor, attend: Attend, y: L::Tensor| #[trigger]
        call_ensures(L::attend_as, (&block.attn, x, attend), y) ==> y == (f.attend_as)(x, attend)
    &&& forall|x: L::Tensor, cache: L::Cache, y: (L::Tensor, L::Cache)| #[trigger]
        call_ensures(L::attend_cached, (&block.attn, x, cache), y) ==> y == (f.attend_cached)(x, cache)
    &&& forall|x: L::Tensor, y: L::Tensor| #[trigger]
        call_ensures(L::feed_forward, (&block.ffn, x), y) ==> y == (f.feed_forward)(x)
    &&& forall|x: L::Tensor, y: L::Tensor| #[trigger]
        call_ensures(L::normalize, (&block.attn_norm, x), y) ==> y == (f.attn_norm)(x)
    &&& forall|x: L::Tensor, y: L::Tensor| #[trigger]
        call_ensures(L::normalize, (&block.ffn_norm, x), y) ==> y == (f.ffn_norm)(x)
    &&& forall|a: L::Tensor, b: L::Tensor, y: L::Tensor| #[trigger]
        call_ensures(L::sum, (a, b), y) ==> y == (f.sum)(a, b)
}

/// A block that normalizes first adds to its input what the attention makes of the normalized
/// input, and to that sum what the feed-forward layer makes of the normalized sum.
pub proof fn block_that_normalizes_first<L: Layers>(
    block: Block<L>,
    f: Functions<L::Tensor, L::Cache>,
    x: L::Tensor,
    attend: Attend,
    y: L::Tensor,
)
    requires
        layers_compute(block, f),
        block.placement is Pre,
        call_ensures(Block::<L>::forward_as, (&block, x, attend), y) || (attend is Causal && call_ensures(
            Block::<L>::forward,
            (&block, x),
            y,
        )),
    ensures
        ({
            let middle = (f.sum)(x, (f.attend_as)((f.attn_norm)(x), attend));
            y == (f.sum)(middle, (f.feed_forward)((f.ffn_norm)(middle)))
        }),
{
    lemma_pass_in_full(block, f, x, None, attend, y, None);
}

/// A block that normalizes last adds to its input what the attention makes of it, normalizes the
/// sum, adds what the feed-forward layer makes of that, and normalizes again.
pub proof fn block_that_normalizes_last<L: Layers>(
    block: Block<L>,
    f: Functions<L::Tensor, L::Cache>,
    x: L::Tensor,
    attend: Attend,
    y: L::Tensor,
)
    requires
        layers_compute(block, f),
        block.placement is Post,
        call_ensures(Block::<L>::forward_as, (&block, x, attend), y) || (attend is Causal && call_ensures(
            Block::<L>::forward,
            (&block, x),
            y,
        )),
    ensures
        ({
            let middle = (f.attn_norm)((f.sum)(x, (f.attend_as)(x, attend)));
            y == (f.ffn_norm)((f.sum)(middle, (f.feed_forward)(middle)))
        }),
{
    lemma_pass_in_full(block, f, x, None, attend, y, None);
}

/// Through a cache a block does the same, but for attending over the cache, and hands back the
/// cache that its one call of the attention gave.
pub proof fn block_over_a_cache<L: Layers>(
    block: Block<L>,
    f: Functions<L::Tensor, L::Cache>,
    x: L::Tensor,
    cache: L::Cache,
    r: (L::Tensor, L::Cache),
)
    requires
        layers_compute(block, f),
        call_ensures(Block::<L>::forward_cached, (&block, x, cache), r),
    ensures
        match block.placement {
            NormPlacement::Pre => {
                let (branch, after) = (f.attend_cached)((f.attn_norm)(x), cache);
                let middle = (f.sum)(x, branch);
                &&& r.0 == (f.sum)(middle, (f.feed_forward)((f.ffn_norm)(middle)))
                &&& r.1 == after
            },
            NormPlacement::Post => {
                let (branch, after) = (f.attend_cached)(x, cache);
                let middle = (f.attn_norm)((f.sum)(x, branch));
                &&& r.0 == (f.ffn_norm)((f.sum)(middle, (f.feed_forward)(middle)))
                &&& r.1 == after
            },
        },
{
    lemma_pass_in_full(block, f, x, Some(cache), Attend::Causal, r.0, Some(r.1));
}

/// A pass with a cache attends over it whatever the mode, and one without attends by the mode and
/// hands no cache back.
pub proof fn inner_pass_takes_the_cache_first<L: Layers>(
    block: Block<L>,
    f: Functions<L::Tensor, L::Cache>,
    x: L::Tensor,
    cache: Option<L::Cache>,
    attend: Attend,
    r: (L::Tensor, Option<L::Cache>),
)
    requires
        layers_compute(block, f),
        call_ensures(Block::<L>::forward_inner, (&block, x, cache, attend), r),
    ensures
        ({
            let given = match block.placement {
                NormPlacement::Pre => (f.attn_norm)(x),
                NormPlacement::Post => x,
            };
            let branch = match cache {
                Some(c) => (f.attend_cached)(given, c).0,
                None => (f.attend_as)(given, attend),
            };
            let after = match cache {
                Some(c) => Some((f.attend_cached)(given, c).1),
                None => None,
            };
            let middle = match block.placement {
                NormPlacement::Pre => (f.sum)(x, branch),
                NormPlacement::Post => (f.attn_norm)((f.sum)(x, branch)),
            };
            &&& r.0 == match block.placement {
                NormPlacement::Pre => (f.sum)(middle, (f.feed_forward)((f.ffn_norm)(middle))),
                NormPlacement::Post => (f.ffn_norm)((f.sum)(middle, (f.feed_forward)(middle))),
            }
            &&& r.1 == after
        }),
{
    lemma_pass_in_full(block, f, x, cache, attend, r.0, r.1);
}

proof fn lemma_pass_in_full<L: Layers>(
    block: Block<L>,
    f: Functions<L::Tensor, L::Cache>,
    x: L::Tensor,
    cache: Option<L::Cache>,
    attend: Attend,
    y: L::Tensor,
    after: Option<L::Cache>,
)
    requires
        layers_compute(block, f),
        block.passes(x, cache, attend, y, after),
    ensures
        ({
            let given = match block.placement {
                NormPlacement::Pre => (f.attn_norm)(x),
                NormPlacement::Post => x,
            };
            let branch = match cache {
                Some(c) => (f.attend_cached)(given, c).0,
                None => (f.attend_as)(given, attend),
            };
            let middle = match block.placement {
                NormPlacement::Pre => (f.sum)(x, branch),
                NormPlacement::Post => (f.attn_norm)((f.sum)(x, branch)),
            };
            &&& y == match block.placement {
                NormPlacement::Pre => (f.sum)(middle, (f.feed_forward)((f.ffn_norm)(middle))),
                NormPlacement::Post => (f.ffn_norm)((f.sum)(middle, (f.feed_forward)(middle))),
            }
            &&& after == match cache {
                Some(c) => Some((f.attend_cached)(given, c).1),
                None => None,
            }
        }),
{
    let m = choose|m: L::Tensor| #[trigger]
        block.attention_branch(x, cache, attend, m, after) && block.feed_forward_branch(m, y);
    match block.placement {
        NormPlacement::Pre => {
            let (kept, normed, branch) = choose|kept: L::Tensor, normed: L::Tensor, branch: L::Tensor|
                {
                    &&& #[trigger] cloned(x, kept)
                    &&& #[trigger] call_ensures(L::normalize, (&block.attn_norm, x), normed)
                    &&& #[trigger] block.attends(normed, cache, attend, branch, after)
                    &&& call_ensures(L::sum, (kept, branch), m)
                };
            assert(m == (f.sum)(x, branch));
        },
        NormPlacement::Post => {
            let (kept, branch, total) = choose|kept: L::Tensor, branch: L::Tensor, total: L::Tensor|
                {
                    &&& #[trigger] cloned(x, kept)
                    &&& #[trigger] block.attends(x, cache, attend, branch, after)
                    &&& #[trigger] call_ensures(L::sum, (kept, branch), total)
                    &&& call_ensures(L::normalize, (&block.attn_norm, total), m)
                };
            assert(total == (f.sum)(x, branch));
        },
    }
}

} // verus!
