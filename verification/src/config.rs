//! What a model, a compressor and a training run are configured with.

use vstd::prelude::*;
use vstd::string::StringExecFns;

use crate::scalar::Scalar;
use crate::settings::{Settings, Value};
use crate::text;

verus! {

/// Where a block normalizes: before each branch, or after each residual sum.
#[derive(Clone, Copy, Debug, PartialEq, Eq, Structural)]
pub enum NormPlacement {
    Pre,
    Post,
}

/// A transformer stack: its shape, and the settings of it that nothing here reads.
#[derive(Debug)]
pub struct ModelConfig {
    pub vocab_size: usize,
    pub d_model: usize,
    pub n_heads: usize,
    pub n_kv_heads: usize,
    pub d_ff: usize,
    pub n_unique_layers: usize,
    pub max_seq_len: usize,
    pub rope_theta: Scalar,
    pub dropout: Scalar,
    pub norm_eps: Scalar,
    pub qk_norm: bool,
    pub norm_placement: NormPlacement,
    /// Every other setting of the stack. Two models that differ in one of them differ.
    pub other: Settings,
}

impl ModelConfig {
    /// Whether every setting agrees with the other's, the real-valued ones as numbers.
    pub open spec fn agrees_with(self, other: ModelConfig) -> bool {
        &&& self.vocab_size == other.vocab_size
        &&& self.d_model == other.d_model
        &&& self.n_heads == other.n_heads
        &&& self.n_kv_heads == other.n_kv_heads
        &&& self.d_ff == other.d_ff
        &&& self.n_unique_layers == other.n_unique_layers
        &&& self.max_seq_len == other.max_seq_len
        &&& self.rope_theta.same_number(other.rope_theta)
        &&& self.dropout.same_number(other.dropout)
        &&& self.norm_eps.same_number(other.norm_eps)
        &&& self.qk_norm == other.qk_norm
        &&& self.norm_placement == other.norm_placement
        &&& self.other.agrees_with(other.other)
    }

    /// Whether every real-valued setting is a number.
    pub open spec fn is_numeric(self) -> bool {
        &&& self.rope_theta !is NotANumber
        &&& self.dropout !is NotANumber
        &&& self.norm_eps !is NotANumber
        &&& self.other.is_numeric()
    }

    /// A stack small enough for a unit test, with these other settings.
    pub open spec fn spec_tiny(other: Settings) -> ModelConfig {
        ModelConfig {
            vocab_size: 64,
            d_model: 32,
            n_heads: 4,
            n_kv_heads: 2,
            d_ff: 64,
            n_unique_layers: 2,
            max_seq_len: 32,
            rope_theta: Scalar::spec_decimal(10000, 0),
            dropout: Scalar::spec_decimal(0, 0),
            norm_eps: Scalar::spec_decimal(1, -5),
            qk_norm: false,
            norm_placement: NormPlacement::Pre,
            other,
        }
    }

    /// The stack of about three million parameters, with these other settings.
    pub open spec fn spec_quark_3m(other: Settings) -> ModelConfig {
        ModelConfig {
            vocab_size: 8192,
            d_model: 160,
            n_heads: 5,
            n_kv_heads: 5,
            d_ff: 448,
            n_unique_layers: 5,
            max_seq_len: 512,
            ..ModelConfig::spec_tiny(other)
        }
    }

    /// A stack small enough for a unit test.
    pub fn tiny() -> (r: ModelConfig)
        ensures
            r == ModelConfig::spec_tiny(r.other),
            r.other@.len() == 0,
    {
        ModelConfig {
            vocab_size: 64,
            d_model: 32,
            n_heads: 4,
            n_kv_heads: 2,
            d_ff: 64,
            n_unique_layers: 2,
            max_seq_len: 32,
            rope_theta: Scalar::decimal(10000, 0),
            dropout: Scalar::zero(),
            norm_eps: Scalar::decimal(1, -5),
            qk_norm: false,
            norm_placement: NormPlacement::Pre,
            other: Settings::none(),
        }
    }

    /// The stack of about three million parameters.
    pub fn quark_3m() -> (r: ModelConfig)
        ensures
            r == ModelConfig::spec_quark_3m(r.other),
            r.other@.len() == 0,
    {
        ModelConfig {
            vocab_size: 8192,
            d_model: 160,
            n_heads: 5,
            n_kv_heads: 5,
            d_ff: 448,
            n_unique_layers: 5,
            max_seq_len: 512,
            ..ModelConfig::tiny()
        }
    }
}

impl Clone for ModelConfig {
    fn clone(&self) -> (r: ModelConfig)
        ensures
            r == *self,
    {
        ModelConfig {
            vocab_size: self.vocab_size,
            d_model: self.d_model,
            n_heads: self.n_heads,
            n_kv_heads: self.n_kv_heads,
            d_ff: self.d_ff,
            n_unique_layers: self.n_unique_layers,
            max_seq_len: self.max_seq_len,
            rope_theta: self.rope_theta,
            dropout: self.dropout,
            norm_eps: self.norm_eps,
            qk_norm: self.qk_norm,
            norm_placement: self.norm_placement,
            other: self.other.clone(),
        }
    }
}

impl PartialEq for ModelConfig {
    fn eq(&self, other: &ModelConfig) -> (r: bool) {
        self.vocab_size == other.vocab_size
            && self.d_model == other.d_model
            && self.n_heads == other.n_heads
            && self.n_kv_heads == other.n_kv_heads
            && self.d_ff == other.d_ff
            && self.n_unique_layers == other.n_unique_layers
            && self.max_seq_len == other.max_seq_len
            && self.rope_theta == other.rope_theta
            && self.dropout == other.dropout
            && self.norm_eps == other.norm_eps
            && self.qk_norm == other.qk_norm
            && self.norm_placement == other.norm_placement
            && self.other == other.other
    }
}

impl vstd::std_specs::cmp::PartialEqSpecImpl for ModelConfig {
    open spec fn obeys_eq_spec() -> bool {
        true
    }

    open spec fn eq_spec(&self, other: &ModelConfig) -> bool {
        self.agrees_with(*other)
    }
}

/// The compressor to build: its stacks, its span and slots, its regularizers, and the settings
/// of it that nothing here reads, such as those of its bottleneck.
#[derive(Debug, PartialEq)]
pub struct CompressConfig {
    pub model: ModelConfig,
    /// How many tokens are compressed at a time.
    pub span_len: usize,
    /// How many latents a span is compressed into.
    pub n_slots: usize,
    /// The token that every decode starts from.
    pub bos_id: u32,
    pub token_dropout: Scalar,
    pub latent_dropout: Scalar,
    /// Every other setting of the compressor.
    pub other: Settings,
}

impl Clone for CompressConfig {
    fn clone(&self) -> (r: CompressConfig)
        ensures
            r == *self,
    {
        CompressConfig {
            model: self.model.clone(),
            span_len: self.span_len,
            n_slots: self.n_slots,
            bos_id: self.bos_id,
            token_dropout: self.token_dropout,
            latent_dropout: self.latent_dropout,
            other: self.other.clone(),
        }
    }
}

impl CompressConfig {
    /// What is wrong with the compressor on its own.
    pub open spec fn faults(self) -> Seq<Seq<char>> {
        if self.bos_id < self.model.vocab_size {
            Seq::empty()
        } else {
            seq![
                "bos_id ("@ + text::decimal_text(self.bos_id as nat) + ") must be below model.vocab_size ("@
                    + text::decimal_text(self.model.vocab_size as nat) + ")"@,
            ]
        }
    }

    /// A compressor small enough for a unit test, with these other settings.
    pub open spec fn spec_tiny(of_model: Settings, other: Settings) -> CompressConfig {
        CompressConfig {
            model: ModelConfig::spec_tiny(of_model),
            span_len: 16,
            n_slots: 4,
            bos_id: 0,
            token_dropout: Scalar::spec_decimal(1, -1),
            latent_dropout: Scalar::spec_decimal(1, -1),
            other,
        }
    }

    /// The compressor of about fifteen million parameters, with these other settings.
    pub open spec fn spec_compressor_15m(of_model: Settings, other: Settings) -> CompressConfig {
        CompressConfig {
            model: ModelConfig { d_model: 320, d_ff: 896, ..ModelConfig::spec_quark_3m(of_model) },
            span_len: 64,
            n_slots: 16,
            bos_id: 0,
            token_dropout: Scalar::spec_decimal(1, -1),
            latent_dropout: Scalar::spec_decimal(1, -1),
            other,
        }
    }

    /// A compressor small enough for a unit test.
    pub fn tiny() -> (r: CompressConfig)
        ensures
            r == CompressConfig::spec_tiny(r.model.other, r.other),
            r.model.other@.len() == 0,
            r.other@.len() == 0,
    {
        CompressConfig {
            model: ModelConfig::tiny(),
            span_len: 16,
            n_slots: 4,
            bos_id: 0,
            token_dropout: Scalar::decimal(1, -1),
            latent_dropout: Scalar::decimal(1, -1),
            other: Settings::none(),
        }
    }

    /// The compressor of about fifteen million parameters.
    pub fn compressor_15m() -> (r: CompressConfig)
        ensures
            r == CompressConfig::spec_compressor_15m(r.model.other, r.other),
            r.model.other@.len() == 0,
            r.other@.len() == 0,
    {
        CompressConfig {
            model: ModelConfig { d_model: 320, d_ff: 896, ..ModelConfig::quark_3m() },
            span_len: 64,
            n_slots: 16,
            bos_id: 0,
            token_dropout: Scalar::decimal(1, -1),
            latent_dropout: Scalar::decimal(1, -1),
            other: Settings::none(),
        }
    }

    /// Checks the compressor on its own: its start token needs an embedding row.
    pub fn validate(&self) -> (r: Result<(), Vec<String>>)
        ensures
            match r {
                Ok(_) => self.faults().len() == 0,
                Err(faults) => faults@.len() > 0 && text::texts(faults@) == self.faults(),
            },
    {
        if (self.bos_id as u64) < (self.model.vocab_size as u64) {
            return Ok(());
        }
        let mut fault = String::from_str("bos_id (");
        fault.append(text::decimal(self.bos_id as u64).as_str());
        fault.append(") must be below model.vocab_size (");
        fault.append(text::decimal(self.model.vocab_size as u64).as_str());
        fault.append(")");
        let mut faults: Vec<String> = Vec::new();
        faults.push(fault);
        assert(text::texts(faults@) == self.faults());
        Err(faults)
    }
}

/// A training run: its windows, its artifacts, what its steps are told, and the settings of it
/// that nothing here reads, such as those of its shards and its optimizer.
#[derive(Debug, PartialEq)]
pub struct TrainConfig {
    pub model: ModelConfig,
    /// How long a window the dataloader cuts.
    pub seq_len: usize,
    /// The directory that the run writes to.
    pub artifact_dir: String,
    /// The share of the run that warms the learning rate up.
    pub warmup_ratio: Option<Scalar>,
    /// The coefficient of the penalty on the head's `logsumexp`.
    pub z_loss: Scalar,
    /// How many micro-batches make up one optimizer step.
    pub grad_accumulation: usize,
    pub resume_from_epoch: Option<usize>,
    /// Every other setting of the run.
    pub other: Settings,
}

impl Clone for TrainConfig {
    fn clone(&self) -> (r: TrainConfig)
        ensures
            r == *self,
    {
        TrainConfig {
            model: self.model.clone(),
            seq_len: self.seq_len,
            artifact_dir: self.artifact_dir.clone(),
            warmup_ratio: self.warmup_ratio,
            z_loss: self.z_loss,
            grad_accumulation: self.grad_accumulation,
            resume_from_epoch: self.resume_from_epoch,
            other: self.other.clone(),
        }
    }
}

impl TrainConfig {
    /// What is wrong with the run on its own, if anything.
    pub open spec fn fault(self) -> Option<Seq<char>> {
        if self.grad_accumulation > 0 {
            None
        } else {
            Some("grad_accumulation must be at least 1"@)
        }
    }

    /// Checks the run on its own: its loss is divided by the micro-batches of a step.
    pub fn validate(&self) -> (r: Result<(), String>)
        ensures
            match r {
                Ok(_) => self.fault() is None,
                Err(fault) => self.fault() == Some(fault@),
            },
    {
        if self.grad_accumulation > 0 {
            Ok(())
        } else {
            Err(String::from_str("grad_accumulation must be at least 1"))
        }
    }
}

impl Default for TrainConfig {
    fn default() -> (r: TrainConfig)
        ensures
            r.model == ModelConfig::spec_quark_3m(r.model.other),
            r.model.other@.len() == 0,
            r.seq_len == 512,
            r.artifact_dir@ == "artifacts"@,
            r.warmup_ratio is None,
            r.z_loss == (Scalar::spec_decimal(0, 0)),
            r.grad_accumulation == 4,
            r.resume_from_epoch is None,
            r.other@.len() == 0,
    {
        TrainConfig {
            model: ModelConfig::quark_3m(),
            seq_len: 512,
            artifact_dir: String::from_str("artifacts"),
            warmup_ratio: None,
            z_loss: Scalar::zero(),
            grad_accumulation: 4,
            resume_from_epoch: None,
            other: Settings::none(),
        }
    }
}

/// Two models agree exactly when each setting of the one is the setting of the other: the whole
/// numbers, the flag and the placement as they are, the real-valued ones as numbers, and the
/// settings that nothing here reads one for one, by name and by value.
pub proof fn models_agree_exactly_when(a: ModelConfig, b: ModelConfig)
    ensures
        a.agrees_with(b) <==> {
            &&& a.vocab_size == b.vocab_size
            &&& a.d_model == b.d_model
            &&& a.n_heads == b.n_heads
            &&& a.n_kv_heads == b.n_kv_heads
            &&& a.d_ff == b.d_ff
            &&& a.n_unique_layers == b.n_unique_layers
            &&& a.max_seq_len == b.max_seq_len
            &&& a.rope_theta.same_number(b.rope_theta)
            &&& a.dropout.same_number(b.dropout)
            &&& a.norm_eps.same_number(b.norm_eps)
            &&& a.qk_norm == b.qk_norm
            &&& a.norm_placement == b.norm_placement
            &&& a.other@.len() == b.other@.len()
            &&& forall|i: int|
                0 <= i < a.other@.len() ==> (#[trigger] a.other@[i]).name@ == b.other@[i].name@
                    && a.other@[i].value.same_value(b.other@[i].value)
        },
{
    crate::settings::settings_agree_exactly_when(a.other, b.other);
}

/// A model agrees with itself exactly when no real-valued setting of it is not-a-number.
pub proof fn model_agrees_with_itself(a: ModelConfig)
    ensures
        a.agrees_with(a) <==> {
            &&& a.rope_theta !is NotANumber
            &&& a.dropout !is NotANumber
            &&& a.norm_eps !is NotANumber
            &&& forall|i: int|
                0 <= i < a.other@.len() ==> (#[trigger] a.other@[i]).value != Value::Number(
                    Scalar::NotANumber,
                )
        },
        a.is_numeric() <==> a.agrees_with(a),
{
    crate::settings::settings_agree_with_themselves(a.other);
    crate::scalar::equality_at_the_edges(a.rope_theta, a.rope_theta, a.rope_theta);
    crate::scalar::equality_at_the_edges(a.dropout, a.dropout, a.dropout);
    crate::scalar::equality_at_the_edges(a.norm_eps, a.norm_eps, a.norm_eps);
}

/// A check of a compressor passes exactly when its start token has an embedding row; otherwise it
/// finds that one fault, and names the token and the number of rows.
pub proof fn start_token_needs_a_row(config: CompressConfig, r: Result<(), Vec<String>>)
    requires
        call_ensures(CompressConfig::validate, (&config,), r),
    ensures
        r is Ok <==> config.bos_id < config.model.vocab_size,
        config.faults().len() == 0 <==> config.bos_id < config.model.vocab_size,
        r matches Err(faults) ==> faults@.len() == 1 && faults@[0]@ == "bos_id ("@ + text::decimal_text(
            config.bos_id as nat,
        ) + ") must be below model.vocab_size ("@ + text::decimal_text(config.model.vocab_size as nat)
            + ")"@,
{
    if let Err(faults) = r {
        text::texts_are_one_for_one(faults@, 0);
        assert(text::texts(faults@).len() == faults@.len());
    }
}

/// A check of a run passes exactly when a step has a micro-batch; otherwise it says so.
pub proof fn step_needs_a_micro_batch(config: TrainConfig, r: Result<(), String>)
    requires
        call_ensures(TrainConfig::validate, (&config,), r),
    ensures
        r is Ok <==> config.grad_accumulation >= 1,
        config.fault() is None <==> config.grad_accumulation >= 1,
        r matches Err(fault) ==> fault@ == "grad_accumulation must be at least 1"@,
{
}

/// The stacks that come with the library: their sizes, which differ, and the settings besides
/// their sizes, which do not.
pub proof fn stacks_fit_together(tiny: ModelConfig, quark: ModelConfig)
    requires
        call_ensures(ModelConfig::tiny, (), tiny),
        call_ensures(ModelConfig::quark_3m, (), quark),
    ensures
        tiny.vocab_size == 64 && tiny.d_model == 32 && tiny.n_heads == 4 && tiny.n_kv_heads == 2
            && tiny.d_ff == 64 && tiny.n_unique_layers == 2 && tiny.max_seq_len == 32,
        quark.vocab_size == 8192 && quark.d_model == 160 && quark.n_heads == 5 && quark.n_kv_heads
            == 5 && quark.d_ff == 448 && quark.n_unique_layers == 5 && quark.max_seq_len == 512,
        tiny.rope_theta == (Scalar::Finite { negative: false, digits: 10000, exponent: 0 }),
        tiny.dropout == (Scalar::Finite { negative: false, digits: 0, exponent: 0 }),
        tiny.norm_eps == (Scalar::Finite { negative: false, digits: 1, exponent: (-5) as i16 }),
        !tiny.qk_norm && tiny.norm_placement is Pre && tiny.other@.len() == 0,
        quark.rope_theta == tiny.rope_theta && quark.dropout == tiny.dropout && quark.norm_eps
            == tiny.norm_eps && quark.qk_norm == tiny.qk_norm && quark.norm_placement
            == tiny.norm_placement && quark.other@.len() == 0,
{
}

/// The compressors that come with the library compress four tokens into a latent, fit their spans
/// into their stacks, start their decodes from the first token, and are sound on their own.
/// The small one is built on the small stack, the large one on the other at twice its widths.
pub proof fn compressors_fit_together(
    tiny: CompressConfig,
    large: CompressConfig,
    small_stack: ModelConfig,
    stack: ModelConfig,
)
    requires
        call_ensures(ModelConfig::tiny, (), small_stack),
        call_ensures(ModelConfig::quark_3m, (), stack),
        call_ensures(CompressConfig::tiny, (), tiny),
        call_ensures(CompressConfig::compressor_15m, (), large),
    ensures
        tiny.span_len == 16 && tiny.span_len == 4 * tiny.n_slots && tiny.span_len
            <= tiny.model.max_seq_len,
        large.span_len == 64 && large.span_len == 4 * large.n_slots && large.span_len
            <= large.model.max_seq_len,
        tiny.bos_id == 0 && large.bos_id == 0,
        tiny.token_dropout == (Scalar::Finite { negative: false, digits: 1, exponent: (-1) as i16 }),
        tiny.latent_dropout == (Scalar::Finite { negative: false, digits: 1, exponent: (-1) as i16 }),
        large.token_dropout == tiny.token_dropout && large.latent_dropout == tiny.latent_dropout,
        tiny.other@.len() == 0 && large.other@.len() == 0,
        tiny.faults().len() == 0 && large.faults().len() == 0,
        tiny.model.agrees_with(small_stack),
        large.model.d_model == 320 && large.model.d_model == 2 * stack.d_model,
        large.model.d_ff == 896 && large.model.d_ff == 2 * stack.d_ff,
        large.model.agrees_with(
            ModelConfig { d_model: large.model.d_model, d_ff: large.model.d_ff, ..stack },
        ),
{
    models_agree_exactly_when(tiny.model, small_stack);
    models_agree_exactly_when(
        large.model,
        ModelConfig { d_model: large.model.d_model, d_ff: large.model.d_ff, ..stack },
    );
}

/// `==` on two models holds exactly when every setting of the one is the setting of the other.
pub proof fn equals_compares_every_setting(a: ModelConfig, b: ModelConfig, r: bool)
    requires
        call_ensures(ModelConfig::eq, (&a, &b), r),
    ensures
        r <==> {
            &&& a.vocab_size == b.vocab_size
            &&& a.d_model == b.d_model
            &&& a.n_heads == b.n_heads
            &&& a.n_kv_heads == b.n_kv_heads
            &&& a.d_ff == b.d_ff
            &&& a.n_unique_layers == b.n_unique_layers
            &&& a.max_seq_len == b.max_seq_len
            &&& a.rope_theta.same_number(b.rope_theta)
            &&& a.dropout.same_number(b.dropout)
            &&& a.norm_eps.same_number(b.norm_eps)
            &&& a.qk_norm == b.qk_norm
            &&& a.norm_placement == b.norm_placement
            &&& a.other@.len() == b.other@.len()
            &&& forall|i: int|
                0 <= i < a.other@.len() ==> (#[trigger] a.other@[i]).name@ == b.other@[i].name@
                    && a.other@[i].value.same_value(b.other@[i].value)
        },
{
    models_agree_exactly_when(a, b);
}

/// The run that is configured by default trains the stack of about three million parameters on
/// windows as long as the stack takes, asks for no penalty, and is sound on its own.
pub proof fn default_run_fits_its_stack(config: TrainConfig, stack: ModelConfig)
    requires
        call_ensures(TrainConfig::default, (), config),
        call_ensures(ModelConfig::quark_3m, (), stack),
    ensures
        config.model.agrees_with(stack),
        config.seq_len == config.model.max_seq_len && config.seq_len == 512,
        config.grad_accumulation == 4,
        config.fault() is None,
        config.z_loss.spec_is_zero(),
        config.artifact_dir@ == "artifacts"@,
        config.warmup_ratio is None && config.resume_from_epoch is None,
        config.other@.len() == 0,
{
    models_agree_exactly_when(config.model, stack);
}

} // verus!
