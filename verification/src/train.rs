//! A compressor run: the compressor to build beside the run that trains it.

use vstd::prelude::*;
use vstd::string::StringExecFns;

use crate::config::{CompressConfig, TrainConfig};
use crate::scalar::Scalar;
use crate::text;

verus! {

/// A compressor run: what to build, and how to train it.
///
/// The two halves overlap: `train.model` repeats `compress.model`, and
/// `train.seq_len` repeats `compress.span_len`. A run in which the copies
/// disagree is invalid; [`CompressTrainConfig::sync`] makes them agree.
#[derive(Debug, PartialEq)]
pub struct CompressTrainConfig {
    /// The compressor to build.
    pub compress: CompressConfig,
    /// Everything about the run that trains it.
    pub train: TrainConfig,
}

impl Clone for CompressTrainConfig {
    fn clone(&self) -> (r: CompressTrainConfig)
        ensures
            r == *self,
    {
        CompressTrainConfig { compress: self.compress.clone(), train: self.train.clone() }
    }
}

/// Why a configuration was turned down: one line for each fault.
#[derive(Clone, Debug)]
pub struct InvalidConfig {
    pub faults: Vec<String>,
}

/// The line break that opens each fault of a report.
pub open spec fn bullet() -> Seq<char> {
    "\n  - "@
}

/// The report of a list of faults.
pub open spec fn report(faults: Seq<Seq<char>>) -> Seq<char> {
    "invalid CompressTrainConfig:"@ + bullet() + text::joined(faults, bullet())
}

/// The fault of a window that is not one span.
pub open spec fn window_fault(seq_len: nat, span_len: nat) -> Seq<char> {
    "train.seq_len ("@ + text::decimal_text(seq_len) + ") must equal compress.span_len ("@
        + text::decimal_text(span_len)
        + "): the dataloader cuts windows to train.seq_len and the compressor asserts it received span_len"@
}

/// The fault of two models that differ.
pub open spec fn model_fault() -> Seq<char> {
    "train.model must equal compress.model: the vocabulary check and the compressor's stacks are built from different copies of it"@
}

/// The fault of a penalty that no step would apply.
pub open spec fn z_loss_fault(z_loss: Scalar) -> Seq<char> {
    "train.z_loss is "@ + z_loss.spec_text()
        + " but the compressor's step does not apply it; set it to 0"@
}

/// The faults that a check of the compressor found.
pub open spec fn compress_faults(check: Result<(), Vec<String>>) -> Seq<Seq<char>> {
    match check {
        Ok(_) => Seq::empty(),
        Err(faults) => text::texts(faults@),
    }
}

/// The fault that a check of the run found.
pub open spec fn train_fault(check: Result<(), String>) -> Option<Seq<char>> {
    match check {
        Ok(_) => None,
        Err(fault) => Some(fault@),
    }
}

/// The faults of the compressor, each under its heading.
pub open spec fn under_compress(faults: Seq<Seq<char>>) -> Seq<Seq<char>> {
    faults.map_values(|fault: Seq<char>| "compress: "@ + fault)
}

/// The fault of the run, under its heading.
pub open spec fn under_train(fault: Option<Seq<char>>) -> Seq<Seq<char>> {
    match fault {
        None => Seq::empty(),
        Some(fault) => seq!["train: "@ + fault],
    }
}

/// A list of one fault where there is one, else of none.
pub open spec fn fault_if(faulty: bool, fault: Seq<char>) -> Seq<Seq<char>> {
    if faulty {
        seq![fault]
    } else {
        Seq::empty()
    }
}

impl InvalidConfig {
    /// Writes the report: a heading, and one line for each fault.
    pub fn to_string(&self) -> (r: String)
        ensures
            r@ == report(text::texts(self.faults@)),
    {
        let mut out = String::from_str("invalid CompressTrainConfig:");
        out.append("\n  - ");
        let list = text::join(&self.faults, "\n  - ");
        out.append(list.as_str());
        out
    }
}

impl CompressTrainConfig {
    /// The run with its copies taken from the compressor.
    pub open spec fn spec_sync(compress: CompressConfig, train: TrainConfig) -> CompressTrainConfig {
        CompressTrainConfig {
            compress,
            train: TrainConfig { model: compress.model, seq_len: compress.span_len, ..train },
        }
    }

    /// Whether the window is not one span.
    pub open spec fn window_differs(self) -> bool {
        self.train.seq_len != self.compress.span_len
    }

    /// Whether the two models differ.
    pub open spec fn models_differ(self) -> bool {
        !self.train.model.agrees_with(self.compress.model)
    }

    /// Whether nothing is wrong between the halves.
    pub open spec fn halves_agree(self) -> bool {
        &&& !self.window_differs()
        &&& !self.models_differ()
        &&& self.train.z_loss.spec_is_zero()
    }

    /// What is wrong with the pair: each fault of the halves under its heading,
    /// then the faults of the halves taken together.
    pub open spec fn faults_given(self, compress: Seq<Seq<char>>, train: Option<Seq<char>>) -> Seq<
        Seq<char>,
    > {
        under_compress(compress) + under_train(train) + fault_if(
            self.window_differs(),
            window_fault(self.train.seq_len as nat, self.compress.span_len as nat),
        ) + fault_if(self.models_differ(), model_fault()) + fault_if(
            !self.train.z_loss.spec_is_zero(),
            z_loss_fault(self.train.z_loss),
        )
    }

    /// What is wrong with the run.
    pub open spec fn faults(self) -> Seq<Seq<char>> {
        self.faults_given(self.compress.faults(), self.train.fault())
    }

    /// Whether nothing is wrong with the run.
    pub open spec fn is_valid(self) -> bool {
        self.faults().len() == 0
    }

    /// Pairs a compressor with a run, making the run agree with it.
    ///
    /// `train.model` and `train.seq_len` are overwritten from `compress`.
    pub fn sync(compress: CompressConfig, train: TrainConfig) -> (r: CompressTrainConfig)
        ensures
            r == CompressTrainConfig::spec_sync(compress, train),
    {
        let train = TrainConfig { model: compress.model.clone(), seq_len: compress.span_len, ..train };
        CompressTrainConfig { compress, train }
    }

    /// Checks the run: each half on its own, then the two halves against each other.
    pub fn validate(&self) -> (r: Result<(), InvalidConfig>)
        ensures
            match r {
                Ok(_) => self.is_valid(),
                Err(e) => !self.is_valid() && text::texts(e.faults@) == self.faults(),
            },
    {
        let compress = self.compress.validate();
        let train = self.train.validate();
        assert(compress_faults(compress) == self.compress.faults());
        self.validate_given(compress, train)
    }

    /// Checks the two halves against each other, given what the check of each half found.
    pub fn validate_given(&self, compress: Result<(), Vec<String>>, train: Result<(), String>) -> (r:
        Result<(), InvalidConfig>)
        ensures
            ({
                let faults = self.faults_given(compress_faults(compress), train_fault(train));
                match r {
                    Ok(_) => faults.len() == 0,
                    Err(e) => faults.len() > 0 && text::texts(e.faults@) == faults,
                }
            }),
    {
        let mut errs: Vec<String> = Vec::new();
        let ghost of_compress = under_compress(compress_faults(compress));
        if let Err(faults) = &compress {
            for i in 0..faults.len()
                invariant
                    of_compress == under_compress(text::texts(faults@)),
                    text::texts(errs@) == of_compress.take(i as int),
            {
                let mut line = String::from_str("compress: ");
                line.append(faults[i].as_str());
                assert(line@ == of_compress[i as int]);
                let ghost so_far = errs@;
                errs.push(line);
                assert(text::texts(errs@) == text::texts(so_far).push(line@));
                assert(of_compress.take(i + 1) == of_compress.take(i as int).push(line@));
            }
        }
        assert(text::texts(errs@) == of_compress);

        let ghost of_train = of_compress + under_train(train_fault(train));
        if let Err(fault) = &train {
            let mut line = String::from_str("train: ");
            line.append(fault.as_str());
            errs.push(line);
        }
        assert(text::texts(errs@) == of_train);

        // The dataloader cuts windows by `train.seq_len`, and the shard's vocabulary is held
        // against `train.model`: a copy that differs would only show in the first forward pass.
        if self.train.seq_len != self.compress.span_len {
            errs.push(window_line(self.train.seq_len, self.compress.span_len));
        }
        let ghost of_window = of_train + fault_if(
            self.window_differs(),
            window_fault(self.train.seq_len as nat, self.compress.span_len as nat),
        );
        assert(text::texts(errs@) == of_window);

        if self.train.model != self.compress.model {
            errs.push(
                String::from_str(
                    "train.model must equal compress.model: the vocabulary check and the compressor's stacks are built from different copies of it",
                ),
            );
        }
        let ghost of_model = of_window + fault_if(self.models_differ(), model_fault());
        assert(text::texts(errs@) == of_model);

        // The step has no way to apply the penalty, so a run that asks for it would go without.
        if !self.train.z_loss.is_zero() {
            errs.push(z_loss_line(&self.train.z_loss));
        }
        assert(text::texts(errs@) == self.faults_given(compress_faults(compress), train_fault(train)));

        if errs.len() == 0 {
            Ok(())
        } else {
            Err(InvalidConfig { faults: errs })
        }
    }
}

impl Default for CompressTrainConfig {
    fn default() -> (r: CompressTrainConfig)
        ensures
            r.compress == CompressConfig::spec_compressor_15m(r.compress.model.other, r.compress.other),
            r.compress.model.other@.len() == 0,
            r.compress.other@.len() == 0,
            r.train.model == r.compress.model,
            r.train.seq_len == r.compress.span_len,
            r.train.artifact_dir@ == "artifacts/compress"@,
            r.train.warmup_ratio == Some(Scalar::spec_decimal(2, -2)),
            r.train.z_loss == Scalar::spec_decimal(0, 0),
            r.train.grad_accumulation == 4,
            r.train.resume_from_epoch is None,
            r.train.other@.len() == 0,
            r.is_valid(),
    {
        CompressTrainConfig::sync(
            CompressConfig::compressor_15m(),
            TrainConfig {
                artifact_dir: String::from_str("artifacts/compress"),
                // A share of the run, so that it holds however the epochs and the batch
                // split are chosen.
                warmup_ratio: Some(Scalar::decimal(2, -2)),
                ..TrainConfig::default()
            },
        )
    }
}

fn window_line(seq_len: usize, span_len: usize) -> (r: String)
    ensures
        r@ == window_fault(seq_len as nat, span_len as nat),
{
    let mut line = String::from_str("train.seq_len (");
    line.append(text::decimal(seq_len as u64).as_str());
    line.append(") must equal compress.span_len (");
    line.append(text::decimal(span_len as u64).as_str());
    line.append(
        "): the dataloader cuts windows to train.seq_len and the compressor asserts it received span_len",
    );
    line
}

fn z_loss_line(z_loss: &Scalar) -> (r: String)
    ensures
        r@ == z_loss_fault(*z_loss),
{
    let mut line = String::from_str("train.z_loss is ");
    line.append(z_loss.to_text().as_str());
    line.append(" but the compressor's step does not apply it; set it to 0");
    line
}

/// A synced run has one window per span and one model, whatever the run was before;
/// nothing else of either half changes.
pub proof fn sync_makes_the_halves_agree(compress: CompressConfig, train: TrainConfig)
    requires
        compress.model.is_numeric(),
    ensures
        ({
            let synced = CompressTrainConfig::spec_sync(compress, train);
            &&& !synced.window_differs()
            &&& !synced.models_differ()
            &&& synced.compress == compress
            &&& synced.train == (TrainConfig {
                model: compress.model,
                seq_len: compress.span_len,
                ..train
            })
        }),
{
}

/// Syncing a synced run changes nothing.
pub proof fn sync_is_idempotent(compress: CompressConfig, train: TrainConfig)
    ensures
        CompressTrainConfig::spec_sync(
            compress,
            CompressTrainConfig::spec_sync(compress, train).train,
        ) == CompressTrainConfig::spec_sync(compress, train),
{
}

/// Given what the checks of the halves found, nothing is wrong with the pair exactly when they
/// found nothing and the halves agree: the window is one span, the models are one, and no penalty
/// is asked for that the step would ignore.
pub proof fn sound_exactly_when(
    config: CompressTrainConfig,
    compress: Seq<Seq<char>>,
    train: Option<Seq<char>>,
)
    ensures
        config.faults_given(compress, train).len() == 0 <==> {
            &&& compress.len() == 0
            &&& train is None
            &&& config.halves_agree()
        },
{
}

/// A run is valid exactly when both halves are sound on their own, the window is one span,
/// the models agree, and no penalty is asked for that the step would ignore.
pub proof fn valid_exactly_when_sound(config: CompressTrainConfig)
    ensures
        config.is_valid() <==> {
            &&& config.compress.faults().len() == 0
            &&& config.train.fault() is None
            &&& config.train.seq_len == config.compress.span_len
            &&& config.train.model.agrees_with(config.compress.model)
            &&& config.train.z_loss.spec_is_zero()
        },
{
    sound_exactly_when(config, config.compress.faults(), config.train.fault());
}

/// A synced run is valid exactly when both halves are sound on their own and no penalty is
/// asked for that the step would ignore.
pub proof fn synced_run_is_valid(compress: CompressConfig, train: TrainConfig)
    requires
        compress.model.is_numeric(),
    ensures
        CompressTrainConfig::spec_sync(compress, train).is_valid() <==> {
            &&& compress.faults().len() == 0
            &&& train.fault() is None
            &&& train.z_loss.spec_is_zero()
        },
{
}

/// A setting that nothing here reads still counts: a run whose model holds one that the
/// compressor's does not is invalid.
pub proof fn every_model_setting_counts(config: CompressTrainConfig, i: int)
    requires
        config.train.model.other@.len() != config.compress.model.other@.len() || (0 <= i
            < config.train.model.other@.len() && !config.train.model.other@[i].same_setting(
            config.compress.model.other@[i],
        )),
    ensures
        !config.is_valid(),
{
    valid_exactly_when_sound(config);
}

/// Every fault stands in the report.
pub proof fn report_names_every_fault(faults: Seq<Seq<char>>, i: int)
    requires
        0 <= i < faults.len(),
    ensures
        text::occurs_in(faults[i], report(faults)),
{
    let list = text::joined(faults, bullet());
    let heading = "invalid CompressTrainConfig:"@ + bullet();
    text::joined_holds_each_part(faults, bullet(), i);
    text::occurs_in_wider(faults[i], list, heading, Seq::empty());
    assert(report(faults) == heading + list + Seq::empty());
}

/// The models are one setting for setting: where the two copies differ in any size, in the flag,
/// in the placement, or in a real-valued setting as a number, the run is refused.
pub proof fn differing_models_are_refused(config: CompressTrainConfig, r: Result<(), InvalidConfig>)
    requires
        call_ensures(CompressTrainConfig::validate, (&config,), r),
        ({
            let a = config.train.model;
            let b = config.compress.model;
            ||| a.vocab_size != b.vocab_size
            ||| a.d_model != b.d_model
            ||| a.n_heads != b.n_heads
            ||| a.n_kv_heads != b.n_kv_heads
            ||| a.d_ff != b.d_ff
            ||| a.n_unique_layers != b.n_unique_layers
            ||| a.max_seq_len != b.max_seq_len
            ||| a.qk_norm != b.qk_norm
            ||| a.norm_placement != b.norm_placement
            ||| !a.rope_theta.same_number(b.rope_theta)
            ||| !a.dropout.same_number(b.dropout)
            ||| !a.norm_eps.same_number(b.norm_eps)
            ||| a.other@.len() != b.other@.len()
            ||| exists|i: int|
                0 <= i < a.other@.len() && ((#[trigger] a.other@[i]).name@ != b.other@[i].name@
                    || !a.other@[i].value.same_value(b.other@[i].value))
        }),
    ensures
        !config.is_valid(),
        r is Err,
{
    crate::config::models_agree_exactly_when(config.train.model, config.compress.model);
}

/// A run passes its check exactly when its start token has an embedding row, a step has a
/// micro-batch, the window is one span, the two models are one setting for setting, and the
/// penalty is zero.
pub proof fn check_passes_exactly_when(config: CompressTrainConfig, r: Result<(), InvalidConfig>)
    requires
        call_ensures(CompressTrainConfig::validate, (&config,), r),
    ensures
        config.is_valid() <==> r is Ok,
        r is Ok <==> {
            let a = config.train.model;
            let b = config.compress.model;
            &&& config.compress.bos_id < b.vocab_size
            &&& config.train.grad_accumulation >= 1
            &&& config.train.seq_len == config.compress.span_len
            &&& a.vocab_size == b.vocab_size
            &&& a.d_model == b.d_model
            &&& a.n_heads == b.n_heads
            &&& a.n_kv_heads == b.n_kv_heads
            &&& a.d_ff == b.d_ff
            &&& a.n_unique_layers == b.n_unique_layers
            &&& a.max_seq_len == b.max_seq_len
            &&& a.rope_theta.same_number(b.rope_theta)
            &&& a.dropout.same_number(b.dropout)
            &&& a.norm_eps.same_number(b.norm_eps)
            &&& a.qk_norm == b.qk_norm
            &&& a.norm_placement == b.norm_placement
            &&& a.other@.len() == b.other@.len()
            &&& forall|i: int|
                0 <= i < a.other@.len() ==> (#[trigger] a.other@[i]).name@ == b.other@[i].name@
                    && a.other@[i].value.same_value(b.other@[i].value)
            &&& config.train.z_loss matches Scalar::Finite { negative, digits, exponent } && digits
                == 0
        },
{
    valid_exactly_when_sound(config);
    crate::config::models_agree_exactly_when(config.train.model, config.compress.model);
}

/// The two halves hold against each other exactly when the window is one span, the models are one
/// setting for setting, and the penalty is zero.
pub proof fn halves_agree_exactly_when(config: CompressTrainConfig)
    ensures
        config.halves_agree() <==> {
            let a = config.train.model;
            let b = config.compress.model;
            &&& config.train.seq_len == config.compress.span_len
            &&& a.vocab_size == b.vocab_size
            &&& a.d_model == b.d_model
            &&& a.n_heads == b.n_heads
            &&& a.n_kv_heads == b.n_kv_heads
            &&& a.d_ff == b.d_ff
            &&& a.n_unique_layers == b.n_unique_layers
            &&& a.max_seq_len == b.max_seq_len
            &&& a.rope_theta.same_number(b.rope_theta)
            &&& a.dropout.same_number(b.dropout)
            &&& a.norm_eps.same_number(b.norm_eps)
            &&& a.qk_norm == b.qk_norm
            &&& a.norm_placement == b.norm_placement
            &&& a.other@.len() == b.other@.len()
            &&& forall|i: int|
                0 <= i < a.other@.len() ==> (#[trigger] a.other@[i]).name@ == b.other@[i].name@
                    && a.other@[i].value.same_value(b.other@[i].value)
            &&& config.train.z_loss matches Scalar::Finite { negative, digits, exponent } && digits
                == 0
        },
{
    crate::config::models_agree_exactly_when(config.train.model, config.compress.model);
}

/// Given what the checks of the halves found, the faults of a run are: each of the compressor's
/// under its heading and in its order, then the run's under its heading, then a window that is
/// not one span, two models that differ, and a penalty that is not zero. Nothing else is a fault,
/// and a run without one passes.
pub proof fn faults_are_listed_in_order(
    config: CompressTrainConfig,
    compress: Result<(), Vec<String>>,
    train: Result<(), String>,
    r: Result<(), InvalidConfig>,
)
    requires
        call_ensures(CompressTrainConfig::validate_given, (&config, compress, train), r),
    ensures
        ({
            let of_compress = match compress {
                Ok(_) => Seq::<Seq<char>>::empty(),
                Err(found) => Seq::new(found@.len(), |i: int| "compress: "@ + found@[i]@),
            };
            let of_train = match train {
                Ok(_) => Seq::<Seq<char>>::empty(),
                Err(found) => seq!["train: "@ + found@],
            };
            let of_window = if config.train.seq_len == config.compress.span_len {
                Seq::<Seq<char>>::empty()
            } else {
                seq![
                    "train.seq_len ("@ + text::decimal_text(config.train.seq_len as nat)
                        + ") must equal compress.span_len ("@ + text::decimal_text(
                        config.compress.span_len as nat,
                    )
                        + "): the dataloader cuts windows to train.seq_len and the compressor asserts it received span_len"@,
                ]
            };
            let of_models = if config.train.model.agrees_with(config.compress.model) {
                Seq::<Seq<char>>::empty()
            } else {
                seq![
                    "train.model must equal compress.model: the vocabulary check and the compressor's stacks are built from different copies of it"@,
                ]
            };
            let of_penalty = if config.train.z_loss.spec_is_zero() {
                Seq::<Seq<char>>::empty()
            } else {
                seq![
                    "train.z_loss is "@ + config.train.z_loss.spec_text()
                        + " but the compressor's step does not apply it; set it to 0"@,
                ]
            };
            let faults = of_compress + of_train + of_window + of_models + of_penalty;
            &&& r is Ok <==> faults.len() == 0
            &&& r matches Err(e) ==> Seq::new(e.faults@.len(), |i: int| e.faults@[i]@) == faults
        }),
{
    match compress {
        Ok(_) => {},
        Err(found) => {
            assert(under_compress(compress_faults(compress)) =~= Seq::new(
                found@.len(),
                |i: int| "compress: "@ + found@[i]@,
            ));
        },
    }
    match r {
        Ok(_) => {},
        Err(e) => {
            assert(text::texts(e.faults@) =~= Seq::new(e.faults@.len(), |i: int| e.faults@[i]@));
        },
    }
    assert(under_compress(Seq::empty()) =~= Seq::empty());
}

/// The faults of a run that checks its own halves: the token without an embedding row and the
/// step without a micro-batch, each under the heading of its half, before what is wrong between
/// the halves.
pub proof fn own_faults_come_first(config: CompressTrainConfig, r: Result<(), InvalidConfig>)
    requires
        call_ensures(CompressTrainConfig::validate, (&config,), r),
    ensures
        r matches Err(e) ==> {
            let token = if config.compress.bos_id < config.compress.model.vocab_size {
                0int
            } else {
                1int
            };
            let step = if config.train.grad_accumulation >= 1 {
                0int
            } else {
                1int
            };
            let window = if config.train.seq_len == config.compress.span_len {
                0int
            } else {
                1int
            };
            let models = if config.train.model.agrees_with(config.compress.model) {
                0int
            } else {
                1int
            };
            let penalty = if config.train.z_loss.spec_is_zero() {
                0int
            } else {
                1int
            };
            &&& e.faults@.len() == token + step + window + models + penalty
            &&& token == 1 ==> e.faults@[0]@ == "compress: "@ + ("bos_id ("@ + text::decimal_text(
                config.compress.bos_id as nat,
            ) + ") must be below model.vocab_size ("@ + text::decimal_text(
                config.compress.model.vocab_size as nat,
            ) + ")"@)
            &&& step == 1 ==> e.faults@[token]@ == "train: "@ + "grad_accumulation must be at least 1"@
            &&& window == 1 ==> e.faults@[token + step]@ == "train.seq_len ("@ + text::decimal_text(
                config.train.seq_len as nat,
            ) + ") must equal compress.span_len ("@ + text::decimal_text(
                config.compress.span_len as nat,
            )
                + "): the dataloader cuts windows to train.seq_len and the compressor asserts it received span_len"@
            &&& models == 1 ==> e.faults@[token + step + window]@
                == "train.model must equal compress.model: the vocabulary check and the compressor's stacks are built from different copies of it"@
            &&& penalty == 1 ==> e.faults@[token + step + window + models]@ == "train.z_loss is "@
                + config.train.z_loss.spec_text()
                + " but the compressor's step does not apply it; set it to 0"@
        },
{
    match r {
        Ok(_) => {},
        Err(e) => {
            let faults = text::texts(e.faults@);
            assert(faults.len() == e.faults@.len());
            assert(forall|i: int| 0 <= i < faults.len() ==> #[trigger] faults[i] == e.faults@[i]@);
            let own = under_compress(config.compress.faults()) + under_train(config.train.fault());
            let between = fault_if(
                config.window_differs(),
                window_fault(config.train.seq_len as nat, config.compress.span_len as nat),
            ) + fault_if(config.models_differ(), model_fault()) + fault_if(
                !config.train.z_loss.spec_is_zero(),
                z_loss_fault(config.train.z_loss),
            );
            assert(faults =~= own + between);
            assert(forall|i: int| 0 <= i < own.len() ==> faults[i] == #[trigger] own[i]);
            assert(forall|i: int|
                0 <= i < between.len() ==> faults[own.len() + i] == #[trigger] between[i]);
            let token: int = if config.compress.bos_id < config.compress.model.vocab_size {
                0
            } else {
                1
            };
            let step: int = if config.train.grad_accumulation >= 1 {
                0
            } else {
                1
            };
            let window: int = if config.window_differs() {
                1
            } else {
                0
            };
            let models: int = if config.models_differ() {
                1
            } else {
                0
            };
            assert(own.len() == token + step);
            if token == 1 {
                assert(faults[0] == own[0]);
            }
            if step == 1 {
                assert(faults[token] == own[token]);
            }
            if window == 1 {
                assert(faults[token + step] == between[0]);
            }
            if models == 1 {
                assert(faults[own.len() + window] == between[window]);
                assert(faults[token + step + window] == between[window]);
            }
            if !config.train.z_loss.spec_is_zero() {
                assert(faults[own.len() + (window + models)] == between[window + models]);
                assert(faults[token + step + window + models] == between[window + models]);
            }
        },
    }
}

/// A report is a heading and then each fault on a line of its own, in order.
pub proof fn report_in_full(invalid: InvalidConfig, r: String)
    requires
        call_ensures(InvalidConfig::to_string, (&invalid,), r),
    ensures
        r@ == "invalid CompressTrainConfig:"@ + "\n  - "@ + text::joined(
            Seq::new(invalid.faults@.len(), |i: int| invalid.faults@[i]@),
            "\n  - "@,
        ),
{
    assert(text::texts(invalid.faults@) =~= Seq::new(
        invalid.faults@.len(),
        |i: int| invalid.faults@[i]@,
    ));
}

/// Reports grow by a line: one fault more is one line more, behind what was there.
pub proof fn report_grows_by_a_line(faults: Seq<Seq<char>>, last: Seq<char>)
    requires
        faults.len() > 0,
    ensures
        report(faults.push(last)) == report(faults) + "\n  - "@ + last,
        report(seq![last]) == "invalid CompressTrainConfig:"@ + "\n  - "@ + last,
{
    text::joining_is_concatenation(last, faults, seq![last], bullet());
    assert(faults.push(last) == faults + seq![last]);
    assert(report(faults.push(last)) =~= report(faults) + "\n  - "@ + last);
}

/// Whatever the two are, syncing keeps the compressor as it is, takes the window and the model of
/// the run from it, and leaves every other setting of the run alone.
pub proof fn sync_takes_the_copies(
    compress: CompressConfig,
    train: TrainConfig,
    r: CompressTrainConfig,
)
    requires
        call_ensures(CompressTrainConfig::sync, (compress, train), r),
    ensures
        r == CompressTrainConfig::spec_sync(compress, train),
        r.compress == compress,
        r.train.seq_len == compress.span_len,
        r.train.model == compress.model,
        r.train.artifact_dir == train.artifact_dir,
        r.train.warmup_ratio == train.warmup_ratio,
        r.train.z_loss == train.z_loss,
        r.train.grad_accumulation == train.grad_accumulation,
        r.train.resume_from_epoch == train.resume_from_epoch,
        r.train.other == train.other,
{
}

/// A synced run passes its check exactly when its start token has an embedding row, a step has a
/// micro-batch, the penalty is zero, and every real-valued setting of the compressor's model is a
/// number.
pub proof fn synced_run_passes_exactly_when(
    compress: CompressConfig,
    train: TrainConfig,
    synced: CompressTrainConfig,
    r: Result<(), InvalidConfig>,
)
    requires
        call_ensures(CompressTrainConfig::sync, (compress, train), synced),
        call_ensures(CompressTrainConfig::validate, (&synced,), r),
    ensures
        r is Ok <==> {
            &&& compress.bos_id < compress.model.vocab_size
            &&& train.grad_accumulation >= 1
            &&& train.z_loss matches Scalar::Finite { negative, digits, exponent } && digits == 0
            &&& compress.model.is_numeric()
        },
{
    valid_exactly_when_sound(synced);
    crate::config::model_agrees_with_itself(compress.model);
}

/// The run that is configured by default trains the large compressor on windows of one span, and
/// passes its check.
pub proof fn default_run_passes(
    config: CompressTrainConfig,
    r: Result<(), InvalidConfig>,
    compressor: CompressConfig,
)
    requires
        call_ensures(CompressConfig::compressor_15m, (), compressor),
        call_ensures(CompressTrainConfig::default, (), config),
        call_ensures(CompressTrainConfig::validate, (&config,), r),
    ensures
        r is Ok,
        config.compress.model.agrees_with(compressor.model),
        config.compress.span_len == compressor.span_len && config.train.seq_len
            == compressor.span_len,
        config.compress.n_slots == compressor.n_slots && config.compress.bos_id
            == compressor.bos_id,
        config.compress.token_dropout == compressor.token_dropout,
        config.compress.latent_dropout == compressor.latent_dropout,
        config.compress.other@.len() == 0 && config.train.other@.len() == 0,
        config.train.model == config.compress.model,
        config.train.grad_accumulation == 4 && config.train.resume_from_epoch is None,
        config.train.artifact_dir@ == "artifacts/compress"@,
        config.train.warmup_ratio == Some(
            Scalar::Finite { negative: false, digits: 2, exponent: (-2) as i16 },
        ),
{
    crate::config::models_agree_exactly_when(config.compress.model, compressor.model);
}

} // verus!
