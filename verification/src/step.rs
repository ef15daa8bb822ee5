//! One pass of training or validation: reconstruct a span, and score the reconstruction.
//!
//! The steps are written against [`Reconstructor`], which supplies the model and its tensors.
//! Nothing is taken for granted of what the model computes: the contracts say what is scored
//! against what, in terms of what each call gave, and hold for every choice of model.

use vstd::prelude::*;

verus! {

/// A batch of windows, as the batcher cuts it.
pub struct TokenBatch<T, M> {
    /// The tokens of each window.
    pub input: T,
    /// The next token after each of them.
    pub target: T,
    /// The positions that a strided evaluation counts.
    pub score_mask: M,
}

/// What a pass reports.
pub struct LmOutput<V, R> {
    pub loss: V,
    /// The size of the gradient, where one was taken.
    pub grad_rms: Option<R>,
}

/// What a training pass hands to the optimizer.
pub struct TrainOutput<G, I> {
    pub grads: G,
    pub item: I,
}

/// A model that reconstructs spans of tokens, and the tensors that it is scored with.
///
/// A step calls these and does nothing else, so it fails where one of them does.
pub trait Reconstructor: Sized {
    type Device;

    type Tokens: Clone;

    type Logits;

    type Mask;

    type Loss: Clone;

    type Grads;

    type Rms;

    /// Encodes the spans and decodes them back.
    fn forward(&self, tokens: Self::Tokens) -> Self::Logits;

    /// How many micro-batches make up one optimizer step.
    fn grad_accumulation(&self) -> usize;

    /// The size of the gradient, given over how many micro-batches it is spread.
    fn grad_rms(&self, grads: &Self::Grads, micro_batches: usize) -> Option<Self::Rms>;

    /// How many spans there are, and how long they are.
    fn dims(tokens: &Self::Tokens) -> (usize, usize);

    fn device(tokens: &Self::Tokens) -> Self::Device;

    /// The mask that scores every position.
    fn ones(dims: (usize, usize), device: &Self::Device) -> Self::Mask;

    /// The mean cross-entropy of the logits against the targets, over the masked positions.
    fn masked_cross_entropy(logits: Self::Logits, targets: Self::Tokens, mask: Self::Mask) -> LmOutput<
        Self::Loss,
        Self::Rms,
    >;

    fn div_scalar(loss: Self::Loss, by: usize) -> Self::Loss;

    fn backward(loss: Self::Loss) -> Self::Grads;
}

/// `mask` scores every position of `tokens`.
pub open spec fn scores_all<M: Reconstructor>(tokens: M::Tokens, mask: M::Mask) -> bool {
    exists|dims: (usize, usize), device: M::Device|
        #![trigger call_ensures(M::ones, (dims, &device), mask)]
        {
            &&& call_ensures(M::dims, (&tokens,), dims)
            &&& call_ensures(M::device, (&tokens,), device)
            &&& call_ensures(M::ones, (dims, &device), mask)
        }
}

/// `out` came of reconstructing `tokens` and scoring every position against `tokens` itself.
pub open spec fn reconstructs<M: Reconstructor>(
    model: M,
    tokens: M::Tokens,
    out: LmOutput<M::Loss, M::Rms>,
) -> bool {
    exists|copy: M::Tokens, logits: M::Logits, mask: M::Mask|
        {
            &&& #[trigger] cloned(tokens, copy)
            &&& #[trigger] call_ensures(M::forward, (&model, copy), logits)
            &&& #[trigger] scores_all::<M>(tokens, mask)
            &&& call_ensures(M::masked_cross_entropy, (logits, tokens, mask), out)
        }
}

/// `grads` came of the loss, spread over the model's micro-batches.
pub open spec fn differentiates<M: Reconstructor>(model: M, loss: M::Loss, grads: M::Grads) -> bool {
    exists|copy: M::Loss, n: usize, scaled: M::Loss|
        {
            &&& #[trigger] cloned(loss, copy)
            &&& call_ensures(M::grad_accumulation, (&model,), n)
            &&& #[trigger] call_ensures(M::div_scalar, (copy, n), scaled)
            &&& call_ensures(M::backward, (scaled,), grads)
        }
}

/// `rms` came of measuring `grads`.
pub open spec fn measures<M: Reconstructor>(model: M, grads: M::Grads, rms: Option<M::Rms>) -> bool {
    exists|n: usize|
        {
            &&& #[trigger] call_ensures(M::grad_accumulation, (&model,), n)
            &&& call_ensures(M::grad_rms, (&model, &grads, n), rms)
        }
}

/// `out` came of a training pass over `tokens`: the reconstruction as it was scored, with the
/// size of its gradient.
pub open spec fn trains<M: Reconstructor>(
    model: M,
    tokens: M::Tokens,
    out: TrainOutput<M::Grads, LmOutput<M::Loss, M::Rms>>,
) -> bool {
    &&& exists|scored: LmOutput<M::Loss, M::Rms>| #[trigger]
        reconstructs(model, tokens, scored) && out.item == (LmOutput {
            grad_rms: out.item.grad_rms,
            ..scored
        })
    &&& differentiates(model, out.item.loss, out.grads)
    &&& measures(model, out.grads, out.item.grad_rms)
}

/// Encodes the spans, decodes them back, and scores every position against the spans themselves.
///
/// The batch's targets and its mask are not read: a span is its own target, and every position
/// of it is reconstructed.
pub fn reconstruction_step<M: Reconstructor>(model: &M, batch: TokenBatch<M::Tokens, M::Mask>) -> (r:
    LmOutput<M::Loss, M::Rms>)
    ensures
        reconstructs(*model, batch.input, r),
{
    let tokens = batch.input;
    let copy = tokens.clone();
    let logits = model.forward(copy);
    let dims = M::dims(&tokens);
    let device = M::device(&tokens);
    let mask = M::ones(dims, &device);
    assert(scores_all::<M>(tokens, mask));
    assert(cloned(tokens, copy));
    assert(call_ensures(M::forward, (model, copy), logits));
    M::masked_cross_entropy(logits, tokens, mask)
}

/// A training pass.
///
/// The loss is divided before it is differentiated: the gradients of the micro-batches of a step
/// are summed, and the loss of each is a mean already. What is reported is the loss undivided.
pub fn train_step<M: Reconstructor>(model: &M, batch: TokenBatch<M::Tokens, M::Mask>) -> (r: TrainOutput<
    M::Grads,
    LmOutput<M::Loss, M::Rms>,
>)
    ensures
        trains(*model, batch.input, r),
{
    let scored = reconstruction_step(model, batch);
    let ghost as_scored = scored;
    let copy = scored.loss.clone();
    let n: usize = model.grad_accumulation();
    let scaled = M::div_scalar(copy, n);
    let grads = M::backward(scaled);
    assert(cloned(scored.loss, copy));
    assert(call_ensures(M::div_scalar, (copy, n), scaled));
    assert(differentiates(*model, scored.loss, grads));
    let n: usize = model.grad_accumulation();
    let rms = model.grad_rms(&grads, n);
    assert(call_ensures(M::grad_accumulation, (model,), n));
    assert(measures(*model, grads, rms));
    let item = LmOutput { grad_rms: rms, ..scored };
    assert(reconstructs(*model, batch.input, as_scored));
    TrainOutput { grads, item }
}

/// A validation pass: the same reconstruction, scored in the same way, with no gradient taken.
pub fn valid_step<M: Reconstructor>(model: &M, batch: TokenBatch<M::Tokens, M::Mask>) -> (r: LmOutput<
    M::Loss,
    M::Rms,
>)
    ensures
        reconstructs(*model, batch.input, r),
{
    reconstruction_step(model, batch)
}

/// Whether scoring this model is a function of the tokens: each part of it gives one result on
/// one input, and a clone is equal to what it was cloned from. Other models of the same type need
/// not be so.
pub open spec fn scoring_is_a_function<M: Reconstructor>(model: M) -> bool {
    &&& forall|a: M::Tokens, b: M::Tokens| #[trigger] cloned(a, b) ==> a == b
    &&& forall|tokens: M::Tokens, y: M::Logits, z: M::Logits|
        #[trigger] call_ensures(M::forward, (&model, tokens), y) && #[trigger] call_ensures(
            M::forward,
            (&model, tokens),
            z,
        ) ==> y == z
    &&& forall|tokens: M::Tokens, y: M::Mask, z: M::Mask|
        #[trigger] scores_all::<M>(tokens, y) && #[trigger] scores_all::<M>(tokens, z) ==> y == z
    &&& forall|
        logits: M::Logits,
        tokens: M::Tokens,
        mask: M::Mask,
        y: LmOutput<M::Loss, M::Rms>,
        z: LmOutput<M::Loss, M::Rms>,
    |
        #[trigger] call_ensures(M::masked_cross_entropy, (logits, tokens, mask), y)
            && #[trigger] call_ensures(M::masked_cross_entropy, (logits, tokens, mask), z) ==> y == z
}

/// Training and validation score the same thing: a loss that training reports is one that
/// validation reports on the same tokens, and the only one where scoring is a function.
pub proof fn training_and_validation_agree<M: Reconstructor>(
    model: M,
    tokens: M::Tokens,
    trained: TrainOutput<M::Grads, LmOutput<M::Loss, M::Rms>>,
    validated: LmOutput<M::Loss, M::Rms>,
)
    requires
        trains(model, tokens, trained),
    ensures
        exists|scored: LmOutput<M::Loss, M::Rms>| #[trigger]
            reconstructs(model, tokens, scored) && scored.loss == trained.item.loss,
        scoring_is_a_function(model) && reconstructs(model, tokens, validated) ==> validated.loss
            == trained.item.loss,
{
    let scored = choose|scored: LmOutput<M::Loss, M::Rms>| #[trigger]
        reconstructs(model, tokens, scored) && trained.item == (LmOutput {
            grad_rms: trained.item.grad_rms,
            ..scored
        });
    assert(reconstructs(model, tokens, scored) && scored.loss == trained.item.loss);
    if scoring_is_a_function(model) && reconstructs(model, tokens, validated) {
        lemma_one_score(model, tokens, scored, validated);
    }
}

proof fn lemma_one_score<M: Reconstructor>(
    model: M,
    tokens: M::Tokens,
    y: LmOutput<M::Loss, M::Rms>,
    z: LmOutput<M::Loss, M::Rms>,
)
    requires
        scoring_is_a_function(model),
        reconstructs(model, tokens, y),
        reconstructs(model, tokens, z),
    ensures
        y == z,
{
}

/// How many micro-batches make up a step does not show in the loss that is reported: of two
/// models that reconstruct alike, the losses on the same tokens are equal where scoring is a
/// function, whatever their accumulations are.
pub proof fn accumulation_leaves_the_report<M: Reconstructor>(
    model: M,
    other: M,
    tokens: M::Tokens,
    a: TrainOutput<M::Grads, LmOutput<M::Loss, M::Rms>>,
    b: TrainOutput<M::Grads, LmOutput<M::Loss, M::Rms>>,
)
    requires
        forall|t: M::Tokens, y: M::Logits| #[trigger]
            call_ensures(M::forward, (&other, t), y) ==> call_ensures(M::forward, (&model, t), y),
        scoring_is_a_function(model),
        trains(model, tokens, a),
        trains(other, tokens, b),
    ensures
        a.item.loss == b.item.loss,
{
    let scored = choose|scored: LmOutput<M::Loss, M::Rms>| #[trigger]
        reconstructs(other, tokens, scored) && b.item == (LmOutput {
            grad_rms: b.item.grad_rms,
            ..scored
        });
    assert(reconstructs(model, tokens, scored)) by {
        let (copy, logits, mask) = choose|copy: M::Tokens, logits: M::Logits, mask: M::Mask|
            {
                &&& #[trigger] cloned(tokens, copy)
                &&& #[trigger] call_ensures(M::forward, (&other, copy), logits)
                &&& #[trigger] scores_all::<M>(tokens, mask)
                &&& call_ensures(M::masked_cross_entropy, (logits, tokens, mask), scored)
            };
        assert(call_ensures(M::forward, (&model, copy), logits));
    }
    training_and_validation_agree(model, tokens, a, scored);
}

/// The gradients of the micro-batches of a step, summed, are the gradient of a step of one batch.
///
/// `share` is what one of `n` equal parts of a gradient is, and `total` what `n` copies of a
/// gradient add up to. Where dividing a loss divides its gradient, a model of `n` micro-batches to
/// a step hands on the share of the gradient that a model of one hands on, and `n` of those add up
/// to it again.
pub proof fn accumulated_gradient_is_the_whole<M: Reconstructor>(
    model: M,
    other: M,
    n: usize,
    share: spec_fn(M::Grads, usize) -> M::Grads,
    total: spec_fn(M::Grads, usize) -> M::Grads,
    tokens: M::Tokens,
    a: TrainOutput<M::Grads, LmOutput<M::Loss, M::Rms>>,
    b: TrainOutput<M::Grads, LmOutput<M::Loss, M::Rms>>,
)
    requires
        forall|t: M::Tokens, y: M::Logits| #[trigger]
            call_ensures(M::forward, (&other, t), y) ==> call_ensures(M::forward, (&model, t), y),
        scoring_is_a_function(model),
        forall|k: usize| #[trigger] call_ensures(M::grad_accumulation, (&model,), k) ==> k == 1,
        forall|k: usize| #[trigger] call_ensures(M::grad_accumulation, (&other,), k) ==> k == n,
        forall|l: M::Loss, m: M::Loss| #[trigger] cloned(l, m) ==> l == m,
        forall|l: M::Loss, whole: M::Loss, part: M::Loss, g: M::Grads, h: M::Grads|
            #![trigger call_ensures(M::div_scalar, (l, 1usize), whole), call_ensures(M::div_scalar, (l, n), part), call_ensures(M::backward, (whole,), g), call_ensures(M::backward, (part,), h)]
            call_ensures(M::div_scalar, (l, 1usize), whole) && call_ensures(
                M::div_scalar,
                (l, n),
                part,
            ) && call_ensures(M::backward, (whole,), g) && call_ensures(M::backward, (part,), h)
                ==> h == share(g, n),
        forall|g: M::Grads| total(#[trigger] share(g, n), n) == g,
        trains(model, tokens, a),
        trains(other, tokens, b),
    ensures
        b.grads == share(a.grads, n),
        total(b.grads, n) == a.grads,
{
    accumulation_leaves_the_report(model, other, tokens, a, b);
    let loss = a.item.loss;
    let (c1, n1, whole) = choose|copy: M::Loss, k: usize, scaled: M::Loss|
        {
            &&& #[trigger] cloned(loss, copy)
            &&& call_ensures(M::grad_accumulation, (&model,), k)
            &&& #[trigger] call_ensures(M::div_scalar, (copy, k), scaled)
            &&& call_ensures(M::backward, (scaled,), a.grads)
        };
    let (c2, n2, part) = choose|copy: M::Loss, k: usize, scaled: M::Loss|
        {
            &&& #[trigger] cloned(loss, copy)
            &&& call_ensures(M::grad_accumulation, (&other,), k)
            &&& #[trigger] call_ensures(M::div_scalar, (copy, k), scaled)
            &&& call_ensures(M::backward, (scaled,), b.grads)
        };
    assert(call_ensures(M::div_scalar, (loss, 1usize), whole));
    assert(call_ensures(M::div_scalar, (loss, n), part));
}

/// A model that validation runs on mirrors the one that training runs on: it does on the
/// translated values what the other does on the values themselves, call by call.
pub open spec fn mirrors<M: Reconstructor, N: Reconstructor>(
    model: M,
    mirror: N,
    of_tokens: spec_fn(M::Tokens) -> N::Tokens,
    of_logits: spec_fn(M::Logits) -> N::Logits,
    of_mask: spec_fn(M::Mask) -> N::Mask,
    of_loss: spec_fn(M::Loss) -> N::Loss,
    of_rms: spec_fn(Option<M::Rms>) -> Option<N::Rms>,
) -> bool {
    &&& forall|a: M::Tokens, b: M::Tokens| #[trigger]
        cloned(a, b) ==> cloned(of_tokens(a), of_tokens(b))
    &&& forall|a: M::Tokens, y: M::Logits| #[trigger]
        call_ensures(M::forward, (&model, a), y) ==> call_ensures(
            N::forward,
            (&mirror, of_tokens(a)),
            of_logits(y),
        )
    &&& forall|a: M::Tokens, mask: M::Mask| #[trigger]
        scores_all::<M>(a, mask) ==> scores_all::<N>(of_tokens(a), of_mask(mask))
    &&& forall|y: M::Logits, a: M::Tokens, mask: M::Mask, out: LmOutput<M::Loss, M::Rms>| #[trigger]
        call_ensures(M::masked_cross_entropy, (y, a, mask), out) ==> call_ensures(
            N::masked_cross_entropy,
            (of_logits(y), of_tokens(a), of_mask(mask)),
            LmOutput { loss: of_loss(out.loss), grad_rms: of_rms(out.grad_rms) },
        )
}

/// Training and validation score the same thing on two backends too: where the model that
/// validation runs on mirrors the one that training runs on, validation reports the loss that
/// training reports, translated, and no other where scoring is a function.
pub proof fn mirrored_validation_agrees<M: Reconstructor, N: Reconstructor>(
    model: M,
    mirror: N,
    of_tokens: spec_fn(M::Tokens) -> N::Tokens,
    of_logits: spec_fn(M::Logits) -> N::Logits,
    of_mask: spec_fn(M::Mask) -> N::Mask,
    of_loss: spec_fn(M::Loss) -> N::Loss,
    of_rms: spec_fn(Option<M::Rms>) -> Option<N::Rms>,
    tokens: M::Tokens,
    trained: TrainOutput<M::Grads, LmOutput<M::Loss, M::Rms>>,
    validated: LmOutput<N::Loss, N::Rms>,
)
    requires
        mirrors(model, mirror, of_tokens, of_logits, of_mask, of_loss, of_rms),
        trains(model, tokens, trained),
    ensures
        exists|scored: LmOutput<N::Loss, N::Rms>| #[trigger]
            reconstructs(mirror, of_tokens(tokens), scored) && scored.loss == of_loss(
                trained.item.loss,
            ),
        scoring_is_a_function(mirror) && reconstructs(mirror, of_tokens(tokens), validated)
            ==> validated.loss == of_loss(trained.item.loss),
{
    let scored = choose|scored: LmOutput<M::Loss, M::Rms>| #[trigger]
        reconstructs(model, tokens, scored) && trained.item == (LmOutput {
            grad_rms: trained.item.grad_rms,
            ..scored
        });
    let (copy, logits, mask) = choose|copy: M::Tokens, logits: M::Logits, mask: M::Mask|
        {
            &&& #[trigger] cloned(tokens, copy)
            &&& #[trigger] call_ensures(M::forward, (&model, copy), logits)
            &&& #[trigger] scores_all::<M>(tokens, mask)
            &&& call_ensures(M::masked_cross_entropy, (logits, tokens, mask), scored)
        };
    let mirrored = LmOutput { loss: of_loss(scored.loss), grad_rms: of_rms(scored.grad_rms) };
    assert(cloned(of_tokens(tokens), of_tokens(copy)));
    assert(call_ensures(N::forward, (&mirror, of_tokens(copy)), of_logits(logits)));
    assert(scores_all::<N>(of_tokens(tokens), of_mask(mask)));
    assert(reconstructs(mirror, of_tokens(tokens), mirrored));
    if scoring_is_a_function(mirror) && reconstructs(mirror, of_tokens(tokens), validated) {
        lemma_one_score(mirror, of_tokens(tokens), mirrored, validated);
    }
}

/// A span is its own target: batches with the same tokens are scored alike, whatever their
/// targets and their masks are. What one batch can come to the other can, and where scoring is a
/// function they come to one result.
pub proof fn only_the_tokens_are_read<M: Reconstructor>(
    model: M,
    one: TokenBatch<M::Tokens, M::Mask>,
    other: TokenBatch<M::Tokens, M::Mask>,
)
    requires
        one.input == other.input,
    ensures
        forall|out: LmOutput<M::Loss, M::Rms>| #[trigger]
            reconstructs(model, one.input, out) <==> reconstructs(model, other.input, out),
        forall|out: TrainOutput<M::Grads, LmOutput<M::Loss, M::Rms>>| #[trigger]
            trains(model, one.input, out) <==> trains(model, other.input, out),
        forall|x: LmOutput<M::Loss, M::Rms>, y: LmOutput<M::Loss, M::Rms>|
            scoring_is_a_function(model) && #[trigger] reconstructs(model, one.input, x)
                && #[trigger] reconstructs(model, other.input, y) ==> x == y,
{
    assert forall|x: LmOutput<M::Loss, M::Rms>, y: LmOutput<M::Loss, M::Rms>|
        scoring_is_a_function(model) && #[trigger] reconstructs(model, one.input, x)
            && #[trigger] reconstructs(model, other.input, y) implies x == y by {
        lemma_one_score(model, one.input, x, y);
    }
}

/// What the parts of a model compute, where each is a function of what it is given.
#[verifier::reject_recursive_types(M)]
pub struct Functions<M: Reconstructor> {
    pub forward: spec_fn(M::Tokens) -> M::Logits,
    pub grad_rms: spec_fn(M::Grads, usize) -> Option<M::Rms>,
    pub dims: spec_fn(M::Tokens) -> (usize, usize),
    pub device: spec_fn(M::Tokens) -> M::Device,
    pub ones: spec_fn((usize, usize), M::Device) -> M::Mask,
    pub masked_cross_entropy: spec_fn(M::Logits, M::Tokens, M::Mask) -> LmOutput<M::Loss, M::Rms>,
    pub div_scalar: spec_fn(M::Loss, usize) -> M::Loss,
    pub backward: spec_fn(M::Loss) -> M::Grads,
}

/// Whether the parts of this model compute these functions, and a clone is equal to what it was
/// cloned from.
pub open spec fn model_computes<M: Reconstructor>(model: M, f: Functions<M>) -> bool {
    &&& forall|a: M::Tokens, b: M::Tokens| #[trigger] cloned(a, b) ==> a == b
    &&& forall|a: M::Loss, b: M::Loss| #[trigger] cloned(a, b) ==> a == b
    &&& forall|t: M::Tokens, y: M::Logits| #[trigger]
        call_ensures(M::forward, (&model, t), y) ==> y == (f.forward)(t)
    &&& forall|g: M::Grads, n: usize, y: Option<M::Rms>| #[trigger]
        call_ensures(M::grad_rms, (&model, &g, n), y) ==> y == (f.grad_rms)(g, n)
    &&& forall|t: M::Tokens, y: (usize, usize)| #[trigger]
        call_ensures(M::dims, (&t,), y) ==> y == (f.dims)(t)
    &&& forall|t: M::Tokens, y: M::Device| #[trigger]
        call_ensures(M::device, (&t,), y) ==> y == (f.device)(t)
    &&& forall|dims: (usize, usize), device: M::Device, y: M::Mask| #[trigger]
        call_ensures(M::ones, (dims, &device), y) ==> y == (f.ones)(dims, device)
    &&& forall|l: M::Logits, t: M::Tokens, mask: M::Mask, y: LmOutput<M::Loss, M::Rms>| #[trigger]
        call_ensures(M::masked_cross_entropy, (l, t, mask), y) ==> y == (f.masked_cross_entropy)(
            l,
            t,
            mask,
        )
    &&& forall|l: M::Loss, n: usize, y: M::Loss| #[trigger]
        call_ensures(M::div_scalar, (l, n), y) ==> y == (f.div_scalar)(l, n)
    &&& forall|l: M::Loss, y: M::Grads| #[trigger]
        call_ensures(M::backward, (l,), y) ==> y == (f.backward)(l)
}

/// Reconstructing a batch and validating on it both score what the model makes of the tokens
/// against the tokens themselves, under the mask of ones that has the dimensions of the tokens.
pub proof fn reconstruction_in_full<M: Reconstructor>(
    model: M,
    f: Functions<M>,
    batch: TokenBatch<M::Tokens, M::Mask>,
    r: LmOutput<M::Loss, M::Rms>,
)
    requires
        model_computes(model, f),
        call_ensures(reconstruction_step::<M>, (&model, batch), r) || call_ensures(
            valid_step::<M>,
            (&model, batch),
            r,
        ),
    ensures
        r == (f.masked_cross_entropy)(
            (f.forward)(batch.input),
            batch.input,
            (f.ones)((f.dims)(batch.input), (f.device)(batch.input)),
        ),
{
    lemma_score_in_full(model, f, batch.input, r);
}

proof fn lemma_score_in_full<M: Reconstructor>(
    model: M,
    f: Functions<M>,
    tokens: M::Tokens,
    out: LmOutput<M::Loss, M::Rms>,
)
    requires
        model_computes(model, f),
        reconstructs(model, tokens, out),
    ensures
        out == (f.masked_cross_entropy)(
            (f.forward)(tokens),
            tokens,
            (f.ones)((f.dims)(tokens), (f.device)(tokens)),
        ),
{
    let (copy, logits, mask) = choose|copy: M::Tokens, logits: M::Logits, mask: M::Mask|
        {
            &&& #[trigger] cloned(tokens, copy)
            &&& #[trigger] call_ensures(M::forward, (&model, copy), logits)
            &&& #[trigger] scores_all::<M>(tokens, mask)
            &&& call_ensures(M::masked_cross_entropy, (logits, tokens, mask), out)
        };
    let (dims, device) = choose|dims: (usize, usize), device: M::Device|
        #![trigger call_ensures(M::ones, (dims, &device), mask)]
        {
            &&& call_ensures(M::dims, (&tokens,), dims)
            &&& call_ensures(M::device, (&tokens,), device)
            &&& call_ensures(M::ones, (dims, &device), mask)
        };
    assert(mask == (f.ones)((f.dims)(tokens), (f.device)(tokens)));
}

/// Training on a batch reports the loss of the reconstruction, undivided; hands on the gradient
/// of that loss divided by the model's micro-batches; and reports the size of that gradient,
/// measured over as many micro-batches.
pub proof fn training_in_full<M: Reconstructor>(
    model: M,
    f: Functions<M>,
    n: usize,
    batch: TokenBatch<M::Tokens, M::Mask>,
    r: TrainOutput<M::Grads, LmOutput<M::Loss, M::Rms>>,
)
    requires
        model_computes(model, f),
        forall|k: usize| #[trigger] call_ensures(M::grad_accumulation, (&model,), k) ==> k == n,
        call_ensures(train_step::<M>, (&model, batch), r),
    ensures
        r.item.loss == (f.masked_cross_entropy)(
            (f.forward)(batch.input),
            batch.input,
            (f.ones)((f.dims)(batch.input), (f.device)(batch.input)),
        ).loss,
        r.grads == (f.backward)((f.div_scalar)(r.item.loss, n)),
        r.item.grad_rms == (f.grad_rms)(r.grads, n),
{
    let scored = choose|scored: LmOutput<M::Loss, M::Rms>| #[trigger]
        reconstructs(model, batch.input, scored) && r.item == (LmOutput {
            grad_rms: r.item.grad_rms,
            ..scored
        });
    lemma_score_in_full(model, f, batch.input, scored);
}

/// Every position is scored: the mask that a reconstruction is scored under was made of ones with
/// the dimensions of the tokens and on their device, so a mask that is as large as it was asked to
/// be is as large as the tokens. What it masks is the model's output on the tokens, against the
/// tokens.
pub proof fn every_position_is_scored<M: Reconstructor>(
    model: M,
    batch: TokenBatch<M::Tokens, M::Mask>,
    r: LmOutput<M::Loss, M::Rms>,
    size: (usize, usize),
    shape: spec_fn(M::Mask) -> (usize, usize),
    place: spec_fn(M::Mask) -> M::Device,
)
    requires
        call_ensures(reconstruction_step::<M>, (&model, batch), r) || call_ensures(
            valid_step::<M>,
            (&model, batch),
            r,
        ),
        forall|dims: (usize, usize)| #[trigger]
            call_ensures(M::dims, (&batch.input,), dims) ==> dims == size,
        forall|dims: (usize, usize), device: M::Device, mask: M::Mask| #[trigger]
            call_ensures(M::ones, (dims, &device), mask) ==> shape(mask) == dims && place(mask)
                == device,
    ensures
        exists|copy: M::Tokens, logits: M::Logits, mask: M::Mask|
            {
                &&& cloned(batch.input, copy)
                &&& #[trigger] call_ensures(M::forward, (&model, copy), logits)
                &&& #[trigger] call_ensures(
                    M::masked_cross_entropy,
                    (logits, batch.input, mask),
                    r,
                )
                &&& shape(mask) == size
                &&& call_ensures(M::ones, (size, &place(mask)), mask)
                &&& call_ensures(M::device, (&batch.input,), place(mask))
            },
{
    lemma_every_position_is_scored(model, batch.input, r, size, shape, place);
}

/// Every position is scored in training too: the loss that it reports came of a score under such a
/// mask.
pub proof fn every_position_is_trained_on<M: Reconstructor>(
    model: M,
    batch: TokenBatch<M::Tokens, M::Mask>,
    r: TrainOutput<M::Grads, LmOutput<M::Loss, M::Rms>>,
    size: (usize, usize),
    shape: spec_fn(M::Mask) -> (usize, usize),
    place: spec_fn(M::Mask) -> M::Device,
)
    requires
        call_ensures(train_step::<M>, (&model, batch), r),
        forall|dims: (usize, usize)| #[trigger]
            call_ensures(M::dims, (&batch.input,), dims) ==> dims == size,
        forall|dims: (usize, usize), device: M::Device, mask: M::Mask| #[trigger]
            call_ensures(M::ones, (dims, &device), mask) ==> shape(mask) == dims && place(mask)
                == device,
    ensures
        exists|
            copy: M::Tokens,
            logits: M::Logits,
            mask: M::Mask,
            scored: LmOutput<M::Loss, M::Rms>,
        |
            {
                &&& cloned(batch.input, copy)
                &&& #[trigger] call_ensures(M::forward, (&model, copy), logits)
                &&& #[trigger] call_ensures(
                    M::masked_cross_entropy,
                    (logits, batch.input, mask),
                    scored,
                )
                &&& r.item.loss == scored.loss
                &&& shape(mask) == size
                &&& call_ensures(M::ones, (size, &place(mask)), mask)
                &&& call_ensures(M::device, (&batch.input,), place(mask))
            },
{
    let scored = choose|scored: LmOutput<M::Loss, M::Rms>| #[trigger]
        reconstructs(model, batch.input, scored) && r.item == (LmOutput {
            grad_rms: r.item.grad_rms,
            ..scored
        });
    lemma_every_position_is_scored(model, batch.input, scored, size, shape, place);
}

proof fn lemma_every_position_is_scored<M: Reconstructor>(
    model: M,
    tokens: M::Tokens,
    r: LmOutput<M::Loss, M::Rms>,
    size: (usize, usize),
    shape: spec_fn(M::Mask) -> (usize, usize),
    place: spec_fn(M::Mask) -> M::Device,
)
    requires
        reconstructs(model, tokens, r),
        forall|dims: (usize, usize)| #[trigger] call_ensures(M::dims, (&tokens,), dims) ==> dims == size,
        forall|dims: (usize, usize), device: M::Device, mask: M::Mask| #[trigger]
            call_ensures(M::ones, (dims, &device), mask) ==> shape(mask) == dims && place(mask)
                == device,
    ensures
        exists|copy: M::Tokens, logits: M::Logits, mask: M::Mask|
            {
                &&& cloned(tokens, copy)
                &&& #[trigger] call_ensures(M::forward, (&model, copy), logits)
                &&& #[trigger] call_ensures(
                    M::masked_cross_entropy,
                    (logits, tokens, mask),
                    r,
                )
                &&& shape(mask) == size
                &&& call_ensures(M::ones, (size, &place(mask)), mask)
                &&& call_ensures(M::device, (&tokens,), place(mask))
            },
{
    let (copy, logits, mask) = choose|copy: M::Tokens, logits: M::Logits, mask: M::Mask|
        {
            &&& #[trigger] cloned(tokens, copy)
            &&& #[trigger] call_ensures(M::forward, (&model, copy), logits)
            &&& #[trigger] scores_all::<M>(tokens, mask)
            &&& call_ensures(M::masked_cross_entropy, (logits, tokens, mask), r)
        };
    let (dims, device) = choose|dims: (usize, usize), device: M::Device|
        #![trigger call_ensures(M::ones, (dims, &device), mask)]
        {
            &&& call_ensures(M::dims, (&tokens,), dims)
            &&& call_ensures(M::device, (&tokens,), device)
            &&& call_ensures(M::ones, (dims, &device), mask)
        };
    assert(dims == size && place(mask) == device);
    assert(call_ensures(M::masked_cross_entropy, (logits, tokens, mask), r));
}

/// Where a model always gives `n` as its micro-batches, the loss that a training pass reports is
/// divided by `n` before it is differentiated, and the gradient that it hands on is measured over
/// `n`.
pub proof fn step_is_spread_over_its_micro_batches<M: Reconstructor>(
    model: M,
    n: usize,
    batch: TokenBatch<M::Tokens, M::Mask>,
    r: TrainOutput<M::Grads, LmOutput<M::Loss, M::Rms>>,
)
    requires
        call_ensures(train_step::<M>, (&model, batch), r),
        forall|k: usize| #[trigger] call_ensures(M::grad_accumulation, (&model,), k) ==> k == n,
    ensures
        call_ensures(M::grad_rms, (&model, &r.grads, n), r.item.grad_rms),
        exists|copy: M::Loss, scaled: M::Loss|
            {
                &&& cloned(r.item.loss, copy)
                &&& #[trigger] call_ensures(M::div_scalar, (copy, n), scaled)
                &&& call_ensures(M::backward, (scaled,), r.grads)
            },
{
    let (copy, k, scaled) = choose|copy: M::Loss, k: usize, scaled: M::Loss|
        {
            &&& #[trigger] cloned(r.item.loss, copy)
            &&& call_ensures(M::grad_accumulation, (&model,), k)
            &&& #[trigger] call_ensures(M::div_scalar, (copy, k), scaled)
            &&& call_ensures(M::backward, (scaled,), r.grads)
        };
    assert(call_ensures(M::div_scalar, (copy, n), scaled));
}

/// How many micro-batches make up a step does not show in the size of the gradient that is
/// reported, where that of a share, measured over the shares, is that of the whole: a model of `n`
/// micro-batches to a step reports what a model of one reports.
pub proof fn accumulation_leaves_the_measure<M: Reconstructor>(
    model: M,
    other: M,
    n: usize,
    share: spec_fn(M::Grads, usize) -> M::Grads,
    tokens: M::Tokens,
    a: TrainOutput<M::Grads, LmOutput<M::Loss, M::Rms>>,
    b: TrainOutput<M::Grads, LmOutput<M::Loss, M::Rms>>,
)
    requires
        forall|t: M::Tokens, y: M::Logits| #[trigger]
            call_ensures(M::forward, (&other, t), y) ==> call_ensures(M::forward, (&model, t), y),
        scoring_is_a_function(model),
        forall|k: usize| #[trigger] call_ensures(M::grad_accumulation, (&model,), k) ==> k == 1,
        forall|k: usize| #[trigger] call_ensures(M::grad_accumulation, (&other,), k) ==> k == n,
        forall|l: M::Loss, m: M::Loss| #[trigger] cloned(l, m) ==> l == m,
        forall|l: M::Loss, whole: M::Loss, part: M::Loss, g: M::Grads, h: M::Grads|
            #![trigger call_ensures(M::div_scalar, (l, 1usize), whole), call_ensures(M::div_scalar, (l, n), part), call_ensures(M::backward, (whole,), g), call_ensures(M::backward, (part,), h)]
            call_ensures(M::div_scalar, (l, 1usize), whole) && call_ensures(
                M::div_scalar,
                (l, n),
                part,
            ) && call_ensures(M::backward, (whole,), g) && call_ensures(M::backward, (part,), h)
                ==> h == share(g, n),
        forall|g: M::Grads, x: Option<M::Rms>, y: Option<M::Rms>|
            #![trigger call_ensures(M::grad_rms, (&model, &g, 1usize), x), call_ensures(M::grad_rms, (&other, &share(g, n), n), y)]
            call_ensures(M::grad_rms, (&model, &g, 1usize), x) && call_ensures(
                M::grad_rms,
                (&other, &share(g, n), n),
                y,
            ) ==> x == y,
        trains(model, tokens, a),
        trains(other, tokens, b),
    ensures
        a.item.grad_rms == b.item.grad_rms,
{
    accumulation_leaves_the_report(model, other, tokens, a, b);
    let loss = a.item.loss;
    let (c1, n1, whole) = choose|copy: M::Loss, k: usize, scaled: M::Loss|
        {
            &&& #[trigger] cloned(loss, copy)
            &&& call_ensures(M::grad_accumulation, (&model,), k)
            &&& #[trigger] call_ensures(M::div_scalar, (copy, k), scaled)
            &&& call_ensures(M::backward, (scaled,), a.grads)
        };
    let (c2, n2, part) = choose|copy: M::Loss, k: usize, scaled: M::Loss|
        {
            &&& #[trigger] cloned(loss, copy)
            &&& call_ensures(M::grad_accumulation, (&other,), k)
            &&& #[trigger] call_ensures(M::div_scalar, (copy, k), scaled)
            &&& call_ensures(M::backward, (scaled,), b.grads)
        };
    assert(call_ensures(M::div_scalar, (loss, 1usize), whole));
    assert(call_ensures(M::div_scalar, (loss, n), part));
    assert(b.grads == share(a.grads, n));
    assert(call_ensures(M::grad_rms, (&model, &a.grads, 1usize), a.item.grad_rms));
    assert(call_ensures(M::grad_rms, (&other, &share(a.grads, n), n), b.item.grad_rms));
}

} // verus!
