use burn::nn::attention::{
    generate_autoregressive_mask, MhaCache, MhaInput, MultiHeadAttention, MultiHeadAttentionConfig,
};
use burn::nn::{Linear, LinearConfig, RmsNorm, SwiGlu, SwiGluConfig};
use burn::tensor::{Distribution, Tensor};
use quark_compress::{
    Attend, Block, GroupedQueryAttentionConfig, Layers, ModelConfig, NormPlacement, RmsNormConfig,
    Scalar, Settings, SwiGluFeedForwardConfig,
};

type TestBackend = burn_ndarray::NdArray<f32>;
type Device = <TestBackend as burn::tensor::backend::Backend>::Device;

fn float(value: Scalar) -> f64 {
    value.to_text().parse().unwrap()
}

/// Layers of burn's own, on its CPU backend.
struct Cpu;

impl Layers for Cpu {
    type Tensor = Tensor<TestBackend, 3>;
    type Device = Device;
    type Attention = MultiHeadAttention<TestBackend>;
    type FeedForward = (SwiGlu<TestBackend>, Linear<TestBackend>);
    type Norm = RmsNorm<TestBackend>;
    type Cache = MhaCache<TestBackend>;

    fn init_attention(config: GroupedQueryAttentionConfig, device: &Device) -> Self::Attention {
        MultiHeadAttentionConfig::new(config.d_model, config.n_heads)
            .with_dropout(float(config.dropout))
            .init(device)
    }

    fn init_feed_forward(config: SwiGluFeedForwardConfig, device: &Device) -> Self::FeedForward {
        (
            SwiGluConfig::new(config.d_model, config.d_ff).init(device),
            LinearConfig::new(config.d_ff, config.d_model).init(device),
        )
    }

    fn init_norm(config: RmsNormConfig, device: &Device) -> Self::Norm {
        burn::nn::RmsNormConfig::new(config.d_model)
            .with_epsilon(float(config.epsilon))
            .init(device)
    }

    fn attend_as(attn: &Self::Attention, x: Self::Tensor, attend: Attend) -> Self::Tensor {
        let [batch, len, _] = x.dims();
        let device = x.device();
        let input = MhaInput::self_attn(x);
        let input = match attend {
            Attend::Causal => {
                input.mask_attn(generate_autoregressive_mask(batch, len, &device))
            }
            Attend::Bidirectional => input,
        };
        attn.forward(input).context
    }

    fn attend_cached(
        attn: &Self::Attention,
        x: Self::Tensor,
        cache: Self::Cache,
    ) -> (Self::Tensor, Self::Cache) {
        let mut cache = cache;
        let [batch, len, _] = x.dims();
        let mask = generate_autoregressive_mask(batch, len, &x.device());
        let input = MhaInput::self_attn(x).mask_attn(mask);
        let context = attn.forward_cache(input, &mut cache).context;
        (context, cache)
    }

    fn feed_forward(ffn: &Self::FeedForward, x: Self::Tensor) -> Self::Tensor {
        ffn.1.forward(ffn.0.forward(x))
    }

    fn normalize(norm: &Self::Norm, x: Self::Tensor) -> Self::Tensor {
        norm.forward(x)
    }

    fn sum(a: Self::Tensor, b: Self::Tensor) -> Self::Tensor {
        a + b
    }
}

#[test]
fn both_norm_placements_preserve_shape() {
    let d = Default::default();
    for placement in [NormPlacement::Pre, NormPlacement::Post] {
        let cfg = ModelConfig {
            norm_placement: placement,
            ..ModelConfig::tiny()
        };
        let block = Block::<Cpu>::new(&cfg, &d);
        let x = Tensor::<TestBackend, 3>::random([2, 6, cfg.d_model], Distribution::Default, &d);
        assert_eq!(block.forward(x).dims(), [2, 6, cfg.d_model]);
    }
}

/// Every caller uses `forward`, so if `forward` and `forward_as(.., Causal)` ever diverge, the
/// language model changed while nobody was looking at it.
#[test]
fn the_causal_mode_is_exactly_what_forward_always_did() {
    let d = Default::default();
    let cfg = ModelConfig::tiny();
    let block = Block::<Cpu>::new(&cfg, &d);
    let x = Tensor::<TestBackend, 3>::random([2, 6, cfg.d_model], Distribution::Default, &d);

    let want: Vec<f32> = block.forward(x.clone()).into_data().to_vec().unwrap();
    let got: Vec<f32> = block
        .forward_as(x, Attend::Causal)
        .into_data()
        .to_vec()
        .unwrap();
    assert_eq!(want, got);
}

/// ...and the bidirectional mode must actually differ, or the argument is
/// decorative. Both placements, because `Post` routes the residual
/// differently and could in principle wash the difference out.
#[test]
fn the_bidirectional_mode_actually_changes_the_output() {
    let d = Default::default();
    for placement in [NormPlacement::Pre, NormPlacement::Post] {
        let cfg = ModelConfig {
            norm_placement: placement,
            ..ModelConfig::tiny()
        };
        let block = Block::<Cpu>::new(&cfg, &d);
        let x = Tensor::<TestBackend, 3>::random([2, 6, cfg.d_model], Distribution::Default, &d);

        let causal = block.forward_as(x.clone(), Attend::Causal);
        let bidi = block.forward_as(x, Attend::Bidirectional);
        let delta: f32 = (causal - bidi).abs().sum().into_scalar();
        assert!(delta > 1e-4, "{placement:?}: the mask made no difference");
    }
}

/// Layers that write down what is applied to what.
struct Written;

impl Layers for Written {
    type Tensor = String;
    type Device = String;
    type Attention = String;
    type FeedForward = String;
    type Norm = String;
    type Cache = Vec<String>;

    fn init_attention(config: GroupedQueryAttentionConfig, device: &String) -> String {
        format!(
            "{} attn {} {} {} {} {} {} {} {}",
            device,
            config.d_model,
            config.n_heads,
            config.n_kv_heads,
            config.max_seq_len,
            config.rope_theta.to_text(),
            config.dropout.to_text(),
            config.qk_norm,
            config.norm_eps.to_text()
        )
    }

    fn init_feed_forward(config: SwiGluFeedForwardConfig, device: &String) -> String {
        let dropout = config.dropout.to_text();
        format!("{} ffn {} {} {}", device, config.d_model, config.d_ff, dropout)
    }

    fn init_norm(config: RmsNormConfig, device: &String) -> String {
        format!("{} norm {} {}", device, config.d_model, config.epsilon.to_text())
    }

    fn attend_as(attn: &String, x: String, attend: Attend) -> String {
        format!("{attn}[{attend:?}]({x})")
    }

    fn attend_cached(attn: &String, x: String, cache: Vec<String>) -> (String, Vec<String>) {
        let mut cache = cache;
        cache.push(x.clone());
        (format!("{attn}[cached]({x})"), cache)
    }

    fn feed_forward(ffn: &String, x: String) -> String {
        format!("{ffn}({x})")
    }

    fn normalize(norm: &String, x: String) -> String {
        format!("{norm}({x})")
    }

    fn sum(a: String, b: String) -> String {
        format!("({a} + {b})")
    }
}

fn written(placement: NormPlacement) -> Block<Written> {
    Block {
        attn: "A".to_string(),
        ffn: "F".to_string(),
        attn_norm: "N".to_string(),
        ffn_norm: "M".to_string(),
        placement,
    }
}

#[test]
fn the_norms_stand_where_the_placement_says() {
    let x = || "x".to_string();
    assert_eq!(
        written(NormPlacement::Pre).forward(x()),
        "((x + A[Causal](N(x))) + F(M((x + A[Causal](N(x))))))"
    );
    assert_eq!(
        written(NormPlacement::Post).forward(x()),
        "M((N((x + A[Causal](x))) + F(N((x + A[Causal](x))))))"
    );
}

#[test]
fn the_mode_reaches_the_attention_and_nothing_else() {
    for placement in [NormPlacement::Pre, NormPlacement::Post] {
        let block = written(placement);
        let causal = block.forward_as("x".to_string(), Attend::Causal);
        let bidi = block.forward_as("x".to_string(), Attend::Bidirectional);
        assert_eq!(causal, block.forward("x".to_string()));
        assert_ne!(causal, bidi);
        assert_eq!(causal.replace("[Causal]", "[Bidirectional]"), bidi);
    }
}

#[test]
fn a_cached_pass_goes_through_the_cache() {
    let seen = || vec!["w".to_string()];
    let (y, cache) = written(NormPlacement::Pre).forward_cached("x".to_string(), seen());
    assert_eq!(y, "((x + A[cached](N(x))) + F(M((x + A[cached](N(x))))))");
    assert_eq!(cache, vec!["w".to_string(), "N(x)".to_string()]);
    let (y, cache) = written(NormPlacement::Post).forward_cached("x".to_string(), seen());
    assert_eq!(y, "M((N((x + A[cached](x))) + F(N((x + A[cached](x))))))");
    assert_eq!(cache, vec!["w".to_string(), "x".to_string()]);
}

#[test]
fn a_block_is_built_from_its_model() {
    let cfg = ModelConfig {
        vocab_size: 1,
        d_model: 2,
        n_heads: 3,
        n_kv_heads: 4,
        d_ff: 5,
        n_unique_layers: 6,
        max_seq_len: 7,
        rope_theta: Scalar::decimal(8, 0),
        dropout: Scalar::decimal(9, 0),
        norm_eps: Scalar::decimal(10, 0),
        qk_norm: true,
        norm_placement: NormPlacement::Post,
        other: Settings::none(),
    };
    let block = Block::<Written>::new(&cfg, &"cpu".to_string());
    assert_eq!(block.attn, "cpu attn 2 3 4 7 8 9 true 10");
    assert_eq!(block.ffn, "cpu ffn 2 5 9");
    assert_eq!(block.attn_norm, "cpu norm 2 10");
    assert_eq!(block.ffn_norm, "cpu norm 2 10");
    assert_eq!(block.placement, NormPlacement::Post);
}

#[test]
fn a_cached_pass_is_the_plain_one_where_the_cache_acts_so() {
    let d = Default::default();
    for placement in [NormPlacement::Pre, NormPlacement::Post] {
        let cfg = ModelConfig {
            norm_placement: placement,
            ..ModelConfig::tiny()
        };
        let block = Block::<Cpu>::new(&cfg, &d);
        let x = Tensor::<TestBackend, 3>::random([2, 5, cfg.d_model], Distribution::Default, &d);
        let (cached, _) = block.forward_cached(x.clone(), MhaCache::autoregressive());
        let delta: f32 = (cached - block.forward(x)).abs().sum().into_scalar();
        assert!(delta < 1e-3, "{placement:?}: {delta}");
    }
}

#[test]
fn with_a_cache_the_mode_is_ignored() {
    for placement in [NormPlacement::Pre, NormPlacement::Post] {
        let block = written(placement);
        let pass = |attend| block.forward_inner("x".to_string(), Some(Vec::new()), attend);
        assert_eq!(pass(Attend::Causal), pass(Attend::Bidirectional));
        assert_eq!(pass(Attend::Causal).1.unwrap().len(), 1);
    }
}
