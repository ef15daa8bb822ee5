use burn::backend::Autodiff;
use burn::module::{AutodiffModule, Module, ModuleVisitor, Param};
use burn::nn::{Embedding, EmbeddingConfig, Linear, LinearConfig};
use burn::optim::GradientsParams;
use burn::tensor::activation::log_softmax;
use burn::tensor::backend::{AutodiffBackend, Backend};
use burn::tensor::{ElementConversion, Int, Tensor, TensorData};
use quark_compress::{
    reconstruction_step, train_step, valid_step, CompressConfig, LmOutput, Reconstructor, Scalar,
    TokenBatch,
};

type TestBackend = burn_ndarray::NdArray<f32>;
type TestAutodiffBackend = Autodiff<TestBackend>;

/// A model small enough to be read at a glance: embed each token, and score the vocabulary.
struct Toy<B: Backend> {
    embedding: Embedding<B>,
    head: Linear<B>,
    grad_accumulation: usize,
}

impl<B: Backend> Toy<B> {
    fn new(cfg: &CompressConfig, device: &B::Device) -> Self {
        Self {
            embedding: EmbeddingConfig::new(cfg.model.vocab_size, cfg.model.d_model).init(device),
            head: LinearConfig::new(cfg.model.d_model, cfg.model.vocab_size).init(device),
            grad_accumulation: 4,
        }
    }

    fn logits(&self, tokens: Tensor<B, 2, Int>) -> Tensor<B, 3> {
        self.head.forward(self.embedding.forward(tokens))
    }
}

impl<B: AutodiffBackend> Toy<B> {
    fn valid(&self) -> Toy<B::InnerBackend> {
        Toy {
            embedding: self.embedding.valid(),
            head: self.head.valid(),
            grad_accumulation: self.grad_accumulation,
        }
    }
}

fn cross_entropy<B: Backend, R>(
    logits: Tensor<B, 3>,
    targets: Tensor<B, 2, Int>,
    mask: Tensor<B, 2>,
) -> LmOutput<Tensor<B, 1>, R> {
    let picked = log_softmax(logits, 2).gather(2, targets.unsqueeze_dim::<3>(2));
    let scored = picked.squeeze_dim::<2>(2) * mask.clone();
    LmOutput {
        loss: (scored.sum() / mask.sum()).neg(),
        grad_rms: None,
    }
}

impl Reconstructor for Toy<TestAutodiffBackend> {
    type Device = <TestAutodiffBackend as Backend>::Device;
    type Tokens = Tensor<TestAutodiffBackend, 2, Int>;
    type Logits = Tensor<TestAutodiffBackend, 3>;
    type Mask = Tensor<TestAutodiffBackend, 2>;
    type Loss = Tensor<TestAutodiffBackend, 1>;
    type Grads = <TestAutodiffBackend as AutodiffBackend>::Gradients;
    type Rms = f32;

    fn forward(&self, tokens: Self::Tokens) -> Self::Logits {
        self.logits(tokens)
    }

    fn grad_accumulation(&self) -> usize {
        self.grad_accumulation
    }

    fn grad_rms(&self, grads: &Self::Grads, micro_batches: usize) -> Option<f32> {
        let grad = self.head.weight.val().grad(grads)?;
        let mean: f32 = grad.square().mean().into_scalar().elem();
        Some(mean.sqrt() * micro_batches as f32)
    }

    fn dims(tokens: &Self::Tokens) -> (usize, usize) {
        let [batch, span] = tokens.dims();
        (batch, span)
    }

    fn device(tokens: &Self::Tokens) -> Self::Device {
        tokens.device()
    }

    fn ones(dims: (usize, usize), device: &Self::Device) -> Self::Mask {
        Tensor::ones([dims.0, dims.1], device)
    }

    fn masked_cross_entropy(
        logits: Self::Logits,
        targets: Self::Tokens,
        mask: Self::Mask,
    ) -> LmOutput<Self::Loss, f32> {
        cross_entropy(logits, targets, mask)
    }

    fn div_scalar(loss: Self::Loss, by: usize) -> Self::Loss {
        loss.div_scalar(by as f64)
    }

    fn backward(loss: Self::Loss) -> Self::Grads {
        loss.backward()
    }
}

impl Reconstructor for Toy<TestBackend> {
    type Device = <TestBackend as Backend>::Device;
    type Tokens = Tensor<TestBackend, 2, Int>;
    type Logits = Tensor<TestBackend, 3>;
    type Mask = Tensor<TestBackend, 2>;
    type Loss = Tensor<TestBackend, 1>;
    type Grads = ();
    type Rms = f32;

    fn forward(&self, tokens: Self::Tokens) -> Self::Logits {
        self.logits(tokens)
    }

    fn grad_accumulation(&self) -> usize {
        self.grad_accumulation
    }

    fn grad_rms(&self, _grads: &(), _micro_batches: usize) -> Option<f32> {
        None
    }

    fn dims(tokens: &Self::Tokens) -> (usize, usize) {
        let [batch, span] = tokens.dims();
        (batch, span)
    }

    fn device(tokens: &Self::Tokens) -> Self::Device {
        tokens.device()
    }

    fn ones(dims: (usize, usize), device: &Self::Device) -> Self::Mask {
        Tensor::ones([dims.0, dims.1], device)
    }

    fn masked_cross_entropy(
        logits: Self::Logits,
        targets: Self::Tokens,
        mask: Self::Mask,
    ) -> LmOutput<Self::Loss, f32> {
        cross_entropy(logits, targets, mask)
    }

    fn div_scalar(loss: Self::Loss, by: usize) -> Self::Loss {
        loss.div_scalar(by as f64)
    }

    fn backward(_loss: Self::Loss) {}
}

/// The same batch on either backend, built by hand rather than sampled.
fn batch<BB: Backend>(
    cfg: &CompressConfig,
    batch_size: usize,
) -> TokenBatch<Tensor<BB, 2, Int>, Tensor<BB, 2>> {
    let device = Default::default();
    let dims = [batch_size, cfg.span_len];
    let ids: Vec<i64> = (0..batch_size * cfg.span_len)
        .map(|i| ((i * 37 + 11) % cfg.model.vocab_size) as i64)
        .collect();
    TokenBatch {
        input: Tensor::<BB, 2, Int>::from_data(TensorData::new(ids, dims), &device),
        // Deliberately garbage: the step must not read it, and a test
        // that fed it the real next-token targets could not tell.
        target: Tensor::<BB, 2, Int>::zeros(dims, &device),
        score_mask: Tensor::zeros(dims, &device),
    }
}

/// Both steps must compute the *same* loss, or checkpoint selection would be
/// ranking epochs by a quantity training never descended.
#[test]
fn training_and_validation_score_the_same_thing() {
    let cfg = CompressConfig {
        token_dropout: Scalar::zero(),
        latent_dropout: Scalar::zero(),
        ..CompressConfig::tiny()
    };
    let model = Toy::<TestAutodiffBackend>::new(&cfg, &Default::default());

    let train: f32 = train_step(&model, batch::<TestAutodiffBackend>(&cfg, 2))
        .item
        .loss
        .into_scalar()
        .elem();
    let valid: f32 = valid_step(&model.valid(), batch::<TestBackend>(&cfg, 2))
        .loss
        .into_scalar()
        .elem();

    assert!(
        (train - valid).abs() < 1e-4,
        "train {train} vs valid {valid}"
    );
}

/// Counts parameters the optimizer would and would not update.
struct Count<'a> {
    grads: &'a GradientsParams,
    with: usize,
    without: Vec<usize>,
}

impl ModuleVisitor<TestAutodiffBackend> for Count<'_> {
    fn visit_float<const D: usize>(&mut self, param: &Param<Tensor<TestAutodiffBackend, D>>) {
        match self.grads.get::<TestBackend, D>(param.id) {
            Some(_) => self.with += 1,
            None => self.without.push(param.val().shape().num_elements()),
        }
    }
}

/// The training step hands on a gradient for each parameter of the toy model, and the validation
/// step takes none.
#[test]
fn a_toy_model_gets_a_gradient_for_each_parameter() {
    let cfg = CompressConfig::tiny();
    let model = Toy::<TestAutodiffBackend>::new(&cfg, &Default::default());
    let output = train_step(&model, batch::<TestAutodiffBackend>(&cfg, 2));

    let modules = (model.embedding.clone(), model.head.clone());
    let grads = GradientsParams::from_grads(output.grads, &modules);
    let mut count = Count {
        grads: &grads,
        with: 0,
        without: Vec::new(),
    };
    modules.visit(&mut count);
    assert!(
        count.without.is_empty(),
        "{} parameter tensors received no gradient (sizes {:?})",
        count.without.len(),
        count.without
    );
    assert!(count.with > 0, "the model has no float parameters at all");

    let rms = output
        .item
        .grad_rms
        .expect("the training step measures the gradient");
    assert!(rms.is_finite() && rms > 0.0, "grad_rms was {rms}");

    let valid = valid_step(&model.valid(), batch::<TestBackend>(&cfg, 2));
    assert!(valid.grad_rms.is_none());
}

/// A model that writes down what it is asked.
struct Scribe {
    grad_accumulation: usize,
}

impl Reconstructor for Scribe {
    type Device = String;
    type Tokens = String;
    type Logits = String;
    type Mask = String;
    type Loss = String;
    type Grads = String;
    type Rms = String;

    fn forward(&self, tokens: String) -> String {
        format!("decode({tokens})")
    }

    fn grad_accumulation(&self) -> usize {
        self.grad_accumulation
    }

    fn grad_rms(&self, grads: &String, micro_batches: usize) -> Option<String> {
        Some(format!("rms({grads}, {micro_batches})"))
    }

    fn dims(tokens: &String) -> (usize, usize) {
        (tokens.len(), 7)
    }

    fn device(tokens: &String) -> String {
        format!("device of {tokens}")
    }

    fn ones(dims: (usize, usize), device: &String) -> String {
        format!("ones({} x {} on {device})", dims.0, dims.1)
    }

    fn masked_cross_entropy(logits: String, targets: String, mask: String) -> LmOutput<String, String> {
        LmOutput {
            loss: format!("xent({logits}, {targets}, {mask})"),
            grad_rms: None,
        }
    }

    fn div_scalar(loss: String, by: usize) -> String {
        format!("{loss} / {by}")
    }

    fn backward(loss: String) -> String {
        format!("grad[{loss}]")
    }
}

fn written(target: &str, score_mask: &str) -> TokenBatch<String, String> {
    TokenBatch {
        input: "abc".to_string(),
        target: target.to_string(),
        score_mask: score_mask.to_string(),
    }
}

const LOSS: &str = "xent(decode(abc), abc, ones(3 x 7 on device of abc))";

#[test]
fn a_span_is_its_own_target_and_every_position_is_scored() {
    let model = Scribe { grad_accumulation: 4 };
    for batch in [written("bcd", "mask"), written("zzz", "other")] {
        let out = reconstruction_step(&model, batch);
        assert_eq!(out.loss, LOSS);
        assert_eq!(out.grad_rms, None);
    }
    let valid = valid_step(&model, written("bcd", "mask"));
    assert_eq!(valid.loss, LOSS);
    assert_eq!(valid.grad_rms, None);
}

#[test]
fn the_gradient_is_of_the_loss_divided_and_the_report_of_the_loss_undivided() {
    let model = Scribe { grad_accumulation: 4 };
    let out = train_step(&model, written("bcd", "mask"));
    assert_eq!(out.item.loss, LOSS);
    assert_eq!(out.grads, format!("grad[{LOSS} / 4]"));
    assert_eq!(out.item.grad_rms, Some(format!("rms(grad[{LOSS} / 4], 4)")));
}

#[test]
fn the_accumulation_shows_in_the_gradient_and_not_in_the_report() {
    let one = train_step(&Scribe { grad_accumulation: 1 }, written("bcd", "mask"));
    let many = train_step(&Scribe { grad_accumulation: 8 }, written("bcd", "mask"));
    assert_eq!(one.item.loss, many.item.loss);
    assert_eq!(one.grads, format!("grad[{LOSS} / 1]"));
    assert_eq!(many.grads, format!("grad[{LOSS} / 8]"));
}

/// Eight equal micro-batches of an eighth of the loss each give the gradient of one batch.
#[test]
fn the_gradients_of_the_micro_batches_add_up_to_the_whole() {
    let cfg = CompressConfig::tiny();
    let mut model = Toy::<TestAutodiffBackend>::new(&cfg, &Default::default());
    let mut gradient = |n| {
        model.grad_accumulation = n;
        let out = train_step(&model, batch::<TestAutodiffBackend>(&cfg, 2));
        let loss: f32 = out.item.loss.into_scalar().elem();
        (loss, model.head.weight.val().grad(&out.grads).unwrap())
    };
    let (loss, whole) = gradient(1);
    let (same, part) = gradient(8);
    assert_eq!(loss, same);
    let delta: f32 = (whole - part.mul_scalar(8.0)).abs().max().into_scalar().elem();
    assert!(delta < 1e-5, "{delta}");
}
