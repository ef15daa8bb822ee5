//! The course of a training run: which step comes next, and with which configuration.
//!
//! A run is taken on by the caller, which asks for the [`Action`] to take and hands back the
//! [`Event`] that came of it: looking at the artifact directory, opening the shards, writing the
//! configuration, training. A check of the two halves of the configuration may come from the
//! caller as well; [`Run::check`] makes it here.

use vstd::prelude::*;
use vstd::string::StringExecFns;

use crate::config::{CompressConfig, TrainConfig};
use crate::text;
use crate::train::{compress_faults, train_fault, CompressTrainConfig, InvalidConfig};

verus! {

/// What came of an action.
#[derive(Debug)]
pub enum Event<E> {
    /// The halves of the configuration were checked, each on its own.
    Checked { compress: Result<(), Vec<String>>, train: Result<(), String> },
    /// It was done.
    Done,
    /// The datasets were opened; `eos_id` is the shard's end-of-text token.
    Opened { eos_id: u32 },
    /// It failed.
    Failed(E),
}

/// What to do next.
#[derive(Debug)]
pub enum Action {
    /// Check each half of the configuration on its own.
    Check { config: CompressTrainConfig },
    /// Refuse to write into the artifacts of another run.
    RefuseToMerge { artifact_dir: String, resume_from_epoch: Option<usize> },
    /// Open the datasets of the run.
    OpenDatasets { train: TrainConfig },
    /// Write the configuration to `file` in `dir`.
    Save { config: CompressTrainConfig, dir: String, file: String },
    /// Build the compressor, with this many micro-batches to a step, and train it by the run.
    Launch { train: TrainConfig, compress: CompressConfig, grad_accumulation: usize },
    /// Nothing: the run has ended.
    Stop,
}

/// How far a run has come.
#[derive(Debug)]
pub enum Stage<E> {
    Checking,
    Clearing,
    Opening,
    /// The shard's token is in the configuration, which is checked again.
    Rechecking,
    Saving,
    Launching,
    Finished,
    /// The configuration was turned down.
    Invalid(InvalidConfig),
    /// An action failed.
    Failed(E),
}

/// A training run under way.
///
/// While it works on its configuration, and once it has finished, the two halves of it agree.
#[derive(Debug)]
pub struct Run<E> {
    config: CompressTrainConfig,
    stage: Stage<E>,
}

/// The model of an [`Event`]: the findings of a check as texts.
pub enum EventView<E> {
    Checked { compress: Seq<Seq<char>>, train: Option<Seq<char>> },
    Done,
    Opened { eos_id: u32 },
    Failed(E),
}

/// The model of a [`Stage`]: the faults of a refused configuration as texts.
pub enum StageView<E> {
    Checking,
    Clearing,
    Opening,
    Rechecking,
    Saving,
    Launching,
    Finished,
    Invalid(Seq<Seq<char>>),
    Failed(E),
}

/// The model of a [`Run`].
pub struct RunView<E> {
    pub config: CompressTrainConfig,
    pub stage: StageView<E>,
}

impl<E> View for Event<E> {
    type V = EventView<E>;

    open spec fn view(&self) -> EventView<E> {
        match *self {
            Event::Checked { compress, train } => EventView::Checked {
                compress: compress_faults(compress),
                train: train_fault(train),
            },
            Event::Done => EventView::Done,
            Event::Opened { eos_id } => EventView::Opened { eos_id },
            Event::Failed(e) => EventView::Failed(e),
        }
    }
}

impl<E> View for Stage<E> {
    type V = StageView<E>;

    open spec fn view(&self) -> StageView<E> {
        match *self {
            Stage::Checking => StageView::Checking,
            Stage::Clearing => StageView::Clearing,
            Stage::Opening => StageView::Opening,
            Stage::Rechecking => StageView::Rechecking,
            Stage::Saving => StageView::Saving,
            Stage::Launching => StageView::Launching,
            Stage::Finished => StageView::Finished,
            Stage::Invalid(invalid) => StageView::Invalid(text::texts(invalid.faults@)),
            Stage::Failed(e) => StageView::Failed(e),
        }
    }
}

impl<E> View for Run<E> {
    type V = RunView<E>;

    closed spec fn view(&self) -> RunView<E> {
        RunView { config: self.config, stage: self.stage@ }
    }
}

/// The configuration with its decodes starting from the shard's end-of-text token.
pub open spec fn with_start_token(config: CompressTrainConfig, eos_id: u32) -> CompressTrainConfig {
    CompressTrainConfig { compress: CompressConfig { bos_id: eos_id, ..config.compress }, ..config }
}

/// The run at `stage` where nothing is wrong with its configuration, given what the checks of
/// its halves found; else turned down.
pub open spec fn vetted<E>(
    config: CompressTrainConfig,
    compress: Seq<Seq<char>>,
    train: Option<Seq<char>>,
    stage: StageView<E>,
) -> RunView<E> {
    let faults = config.faults_given(compress, train);
    RunView {
        config,
        stage: if faults.len() == 0 {
            stage
        } else {
            StageView::Invalid(faults)
        },
    }
}

/// The check that the halves make of themselves.
pub open spec fn own_check<E>(config: CompressTrainConfig) -> EventView<E> {
    EventView::Checked { compress: config.compress.faults(), train: config.train.fault() }
}

/// Whether the event is a check after which nothing is wrong with the configuration.
pub open spec fn clears<E>(event: EventView<E>, config: CompressTrainConfig) -> bool {
    event matches EventView::Checked { compress, train } && config.faults_given(compress, train).len()
        == 0
}

impl<E> RunView<E> {
    /// A run at its start.
    pub open spec fn start(config: CompressTrainConfig) -> RunView<E> {
        RunView { config, stage: StageView::Checking }
    }

    /// Whether the run waits for an event.
    pub open spec fn is_acting(self) -> bool {
        self.progress() is Some && self.stage !is Finished
    }

    /// Whether the run works on its configuration, or has: it is past a check and was not
    /// turned down.
    pub open spec fn is_working(self) -> bool {
        self.progress() is Some && self.stage !is Checking
    }

    /// How many stages a run has passed that has met no obstacle.
    pub open spec fn progress(self) -> Option<nat> {
        match self.stage {
            StageView::Checking => Some(0),
            StageView::Clearing => Some(1),
            StageView::Opening => Some(2),
            StageView::Rechecking => Some(3),
            StageView::Saving => Some(4),
            StageView::Launching => Some(5),
            StageView::Finished => Some(6),
            _ => None,
        }
    }

    /// The run after an event. An event that does not answer the stage's action changes nothing.
    pub open spec fn next(self, event: EventView<E>) -> RunView<E> {
        match (self.stage, event) {
            (StageView::Checking, EventView::Checked { compress, train }) => vetted(
                self.config,
                compress,
                train,
                StageView::Clearing,
            ),
            (StageView::Clearing, EventView::Done) => RunView { stage: StageView::Opening, ..self },
            (StageView::Opening, EventView::Opened { eos_id }) => RunView {
                config: with_start_token(self.config, eos_id),
                stage: StageView::Rechecking,
            },
            (StageView::Rechecking, EventView::Checked { compress, train }) => vetted(
                self.config,
                compress,
                train,
                StageView::Saving,
            ),
            (StageView::Saving, EventView::Done) => RunView { stage: StageView::Launching, ..self },
            (StageView::Launching, EventView::Done) => RunView {
                stage: StageView::Finished,
                ..self
            },
            (_, EventView::Failed(e)) => if self.is_acting() {
                RunView { stage: StageView::Failed(e), ..self }
            } else {
                self
            },
            _ => self,
        }
    }
}

/// The action that a stage asks for.
pub open spec fn asks_for<E>(run: RunView<E>, action: Action) -> bool {
    match run.stage {
        StageView::Checking | StageView::Rechecking => action == (Action::Check {
            config: run.config,
        }),
        StageView::Clearing => action == (Action::RefuseToMerge {
            artifact_dir: run.config.train.artifact_dir,
            resume_from_epoch: run.config.train.resume_from_epoch,
        }),
        StageView::Opening => action == (Action::OpenDatasets { train: run.config.train }),
        StageView::Saving => action matches Action::Save { config, dir, file } && config == run.config
            && dir == run.config.train.artifact_dir && file@ == "config.json"@,
        StageView::Launching => action == (Action::Launch {
            train: run.config.train,
            compress: run.config.compress,
            grad_accumulation: run.config.train.grad_accumulation,
        }),
        _ => action is Stop,
    }
}

/// Starts every decode from the shard's end-of-text token: the tokenizer has no token of its
/// own for that, and the shard knows which id its corpus uses.
pub fn adopt_start_token(config: CompressTrainConfig, eos_id: u32) -> (r: CompressTrainConfig)
    ensures
        r == with_start_token(config, eos_id),
{
    let mut config = config;
    if config.compress.bos_id != eos_id {
        config.compress.bos_id = eos_id;
    }
    config
}

impl<E> Run<E> {
    #[verifier::type_invariant]
    spec fn halves_agree_while_working(self) -> bool {
        self@.is_working() ==> self@.config.halves_agree()
    }

    /// Starts a run. Its configuration is still to be checked.
    pub fn start(config: CompressTrainConfig) -> (r: Run<E>)
        ensures
            r@ == RunView::<E>::start(config),
    {
        Run { config, stage: Stage::Checking }
    }

    /// The configuration as it stands.
    pub fn config(&self) -> (r: &CompressTrainConfig)
        ensures
            *r == self@.config,
            self@.is_working() ==> r.halves_agree(),
    {
        proof {
            use_type_invariant(self);
        }
        &self.config
    }

    /// How far the run has come.
    pub fn stage(&self) -> (r: &Stage<E>)
        ensures
            r@ == self@.stage,
    {
        &self.stage
    }

    /// How far the run has come, for good.
    pub fn into_stage(self) -> (r: Stage<E>)
        ensures
            r@ == self@.stage,
    {
        let Run { stage, .. } = self;
        stage
    }

    fn vet(
        config: CompressTrainConfig,
        compress: Result<(), Vec<String>>,
        train: Result<(), String>,
        stage: Stage<E>,
    ) -> (r: Run<E>)
        ensures
            r@ == vetted(config, compress_faults(compress), train_fault(train), stage@),
    {
        proof {
            crate::train::sound_exactly_when(config, compress_faults(compress), train_fault(train));
        }
        match config.validate_given(compress, train) {
            Ok(_) => Run { config, stage },
            Err(invalid) => Run { config, stage: Stage::Invalid(invalid) },
        }
    }

    /// What to do next. Nothing but a check is asked for while the halves of the configuration
    /// may disagree.
    pub fn action(&self) -> (r: Action)
        ensures
            asks_for(self@, r),
            r is Check || r is Stop || self@.config.halves_agree(),
    {
        proof {
            use_type_invariant(self);
        }
        match &self.stage {
            Stage::Checking => Action::Check { config: self.config.clone() },
            Stage::Clearing => Action::RefuseToMerge {
                artifact_dir: self.config.train.artifact_dir.clone(),
                resume_from_epoch: self.config.train.resume_from_epoch,
            },
            Stage::Opening => Action::OpenDatasets { train: self.config.train.clone() },
            Stage::Rechecking => Action::Check { config: self.config.clone() },
            Stage::Saving => Action::Save {
                config: self.config.clone(),
                dir: self.config.train.artifact_dir.clone(),
                file: String::from_str("config.json"),
            },
            Stage::Launching => Action::Launch {
                train: self.config.train.clone(),
                compress: self.config.compress.clone(),
                grad_accumulation: self.config.train.grad_accumulation,
            },
            _ => Action::Stop,
        }
    }

    /// Takes the run on by the check that the halves of its configuration make of themselves.
    pub fn check(self) -> (r: Run<E>)
        ensures
            r@ == self@.next(own_check(self@.config)),
    {
        let compress = self.config.compress.validate();
        let train = self.config.train.validate();
        assert(compress_faults(compress) == self.config.compress.faults());
        self.advance(Event::Checked { compress, train })
    }

    /// Takes the run on by what came of its action.
    ///
    /// The configuration is checked again once the shard's token is in it: an id that the model
    /// has no embedding row for would only show in the first decode.
    pub fn advance(self, event: Event<E>) -> (r: Run<E>)
        ensures
            r@ == self@.next(event@),
    {
        proof {
            use_type_invariant(&self);
        }
        let Run { config, stage } = self;
        match (stage, event) {
            (Stage::Checking, Event::Checked { compress, train }) => Run::vet(
                config,
                compress,
                train,
                Stage::Clearing,
            ),
            (Stage::Clearing, Event::Done) => Run { config, stage: Stage::Opening },
            (Stage::Opening, Event::Opened { eos_id }) => Run {
                config: adopt_start_token(config, eos_id),
                stage: Stage::Rechecking,
            },
            (Stage::Rechecking, Event::Checked { compress, train }) => Run::vet(
                config,
                compress,
                train,
                Stage::Saving,
            ),
            (Stage::Saving, Event::Done) => Run { config, stage: Stage::Launching },
            (Stage::Launching, Event::Done) => Run { config, stage: Stage::Finished },
            (Stage::Finished, Event::Failed(_)) => Run { config, stage: Stage::Finished },
            (Stage::Invalid(invalid), Event::Failed(_)) => Run {
                config,
                stage: Stage::Invalid(invalid),
            },
            (Stage::Failed(earlier), Event::Failed(_)) => Run { config, stage: Stage::Failed(earlier) },
            (_, Event::Failed(e)) => Run { config, stage: Stage::Failed(e) },
            (stage, _) => Run { config, stage },
        }
    }
}

/// A run of `config` after `events`, in order.
pub open spec fn after<E>(config: CompressTrainConfig, events: Seq<EventView<E>>) -> RunView<E>
    decreases events.len(),
{
    if events.len() == 0 {
        RunView::start(config)
    } else {
        after(config, events.drop_last()).next(events.last())
    }
}

/// Whatever happens, a run that clears, opens, saves or launches, or has finished, has a
/// configuration that a check found nothing wrong with, as it stands: an invalid one is not
/// acted on. While the shard's token is yet to be checked, that holds of the configuration
/// before it.
pub proof fn working_run_was_cleared<E>(config: CompressTrainConfig, events: Seq<EventView<E>>)
    ensures
        ({
            let run = after(config, events);
            run.is_working() ==> exists|i: int|
                #![trigger events[i]]
                0 <= i < events.len() && clears(
                    events[i],
                    if run.stage is Rechecking {
                        config
                    } else {
                        run.config
                    },
                )
        }),
    decreases events.len(),
{
    if events.len() > 0 {
        let earlier = events.drop_last();
        working_run_was_cleared(config, earlier);
        start_token_is_the_shards(config, earlier);
        let before = after(config, earlier);
        let run = after(config, events);
        if run.is_working() {
            if clears(events.last(), run.config) && (before.stage is Checking || before.stage is Rechecking) {
                assert(events[events.len() - 1] == events.last());
                assert(run.stage is Clearing || run.stage is Saving);
            } else {
                let vouched = if before.stage is Rechecking { config } else { before.config };
                let i = choose|i: int|
                    #![trigger earlier[i]]
                    0 <= i < earlier.len() && clears(earlier[i], vouched);
                assert(events[i] == earlier[i]);
            }
        }
    }
}

/// A run of a configuration that no check clears does nothing but be checked, and is left as
/// it was configured.
pub proof fn invalid_run_never_works<E>(config: CompressTrainConfig, events: Seq<EventView<E>>)
    requires
        forall|i: int| 0 <= i < events.len() ==> !clears(#[trigger] events[i], config),
    ensures
        !after(config, events).is_working(),
        after(config, events).config == config,
    decreases events.len(),
{
    if events.len() > 0 {
        let earlier = events.drop_last();
        assert forall|i: int| 0 <= i < earlier.len() implies !clears(#[trigger] earlier[i], config) by {
            assert(earlier[i] == events[i]);
        }
        invalid_run_never_works(config, earlier);
        assert(events[events.len() - 1] == events.last());
    }
}

/// Where the halves check themselves, a run goes on exactly when its configuration is valid, and
/// is otherwise turned down with its faults.
pub proof fn own_check_is_validity<E>(run: RunView<E>)
    requires
        run.stage is Checking || run.stage is Rechecking,
    ensures
        ({
            let checked = run.next(own_check(run.config));
            &&& checked.config == run.config
            &&& checked.stage == if !run.config.is_valid() {
                StageView::Invalid(run.config.faults())
            } else if run.stage is Checking {
                StageView::<E>::Clearing
            } else {
                StageView::<E>::Saving
            }
        }),
{
}

/// Whatever happens, nothing of the configuration changes but the start token.
pub proof fn only_the_start_token_changes<E>(config: CompressTrainConfig, events: Seq<EventView<E>>)
    ensures
        ({
            let now = after(config, events).config;
            now == with_start_token(config, now.compress.bos_id)
        }),
    decreases events.len(),
{
    if events.len() > 0 {
        only_the_start_token_changes(config, events.drop_last());
    }
}

/// Once the datasets are open, the start token is the one that the shard gave; until then it is
/// the one that was configured.
pub proof fn start_token_is_the_shards<E>(config: CompressTrainConfig, events: Seq<EventView<E>>)
    ensures
        ({
            let run = after(config, events);
            &&& (run.progress() is Some && run.progress()->0 < 3) ==> run.config == config
            &&& (run.progress() is Some && run.progress()->0 >= 3) ==> exists|i: int, eos_id: u32|
                #![trigger events[i], with_start_token(config, eos_id)]
                0 <= i < events.len() && events[i] == (EventView::<E>::Opened { eos_id })
                    && run.config == with_start_token(config, eos_id)
        }),
    decreases events.len(),
{
    if events.len() > 0 {
        let earlier = events.drop_last();
        start_token_is_the_shards(config, earlier);
        let before = after(config, earlier);
        let run = after(config, events);
        if run.progress() is Some && run.progress()->0 >= 3 {
            if before.stage is Opening {
                let eos_id = events.last()->eos_id;
                assert(events[events.len() - 1] == (EventView::<E>::Opened { eos_id }));
                assert(run.config == with_start_token(config, eos_id));
            } else {
                let (i, eos_id) = choose|i: int, eos_id: u32|
                    #![trigger earlier[i], with_start_token(config, eos_id)]
                    0 <= i < earlier.len() && earlier[i] == (EventView::<E>::Opened { eos_id })
                        && before.config == with_start_token(config, eos_id);
                assert(events[i] == earlier[i]);
            }
        }
    }
}

/// The stages come in order and none is passed over: a run that has come to one stage was at
/// each earlier stage before. Once the datasets are open its configuration stands still, so what
/// is launched is what was checked again and what was saved.
pub proof fn stages_come_in_order<E>(
    config: CompressTrainConfig,
    events: Seq<EventView<E>>,
    stage: nat,
)
    requires
        after(config, events).progress() matches Some(p) && stage <= p,
    ensures
        exists|k: int|
            #![trigger events.take(k)]
            0 <= k <= events.len() && after(config, events.take(k)).progress() == Some(stage) && (
            stage >= 3 ==> after(config, events.take(k)).config == after(config, events).config),
    decreases events.len(),
{
    let run = after(config, events);
    if run.progress() == Some(stage) {
        assert(events.take(events.len() as int) == events);
    } else {
        let earlier = events.drop_last();
        let before = after(config, earlier);
        assert(before.progress() is Some);
        stages_come_in_order(config, earlier, stage);
        let k = choose|k: int|
            #![trigger earlier.take(k)]
            0 <= k <= earlier.len() && after(config, earlier.take(k)).progress() == Some(stage) && (
            stage >= 3 ==> after(config, earlier.take(k)).config == before.config);
        assert(events.take(k) == earlier.take(k));
    }
}

/// A run that meets no obstacle finishes, with the shard's token in its configuration.
pub proof fn unobstructed_run_finishes<E>(config: CompressTrainConfig, eos_id: u32)
    requires
        config.is_valid(),
        with_start_token(config, eos_id).is_valid(),
    ensures
        after(
            config,
            seq![
                own_check::<E>(config),
                EventView::Done,
                EventView::Opened { eos_id },
                own_check(with_start_token(config, eos_id)),
                EventView::Done,
                EventView::Done,
            ],
        ) == (RunView::<E> {
            config: with_start_token(config, eos_id),
            stage: StageView::Finished,
        }),
{
    let events = seq![
        own_check::<E>(config),
        EventView::Done,
        EventView::Opened { eos_id },
        own_check(with_start_token(config, eos_id)),
        EventView::Done,
        EventView::Done,
    ];
    assert(events.drop_last().drop_last().drop_last().drop_last().drop_last().drop_last() == Seq::<
        EventView<E>,
    >::empty());
    reveal_with_fuel(after, 7);
}

/// A shard whose end-of-text token has no embedding row ends the run at the check that follows,
/// before anything is saved.
pub proof fn token_without_a_row_is_refused<E>(run: RunView<E>, eos_id: u32)
    requires
        run.stage is Opening,
        eos_id >= run.config.compress.model.vocab_size,
    ensures
        ({
            let opened = run.next(EventView::Opened { eos_id });
            &&& opened.stage is Rechecking
            &&& opened.next(own_check(opened.config)).stage is Invalid
        }),
{
}

/// A run that has ended stays as it is, whatever is handed to it.
pub proof fn ended_run_stays_ended<E>(run: RunView<E>, event: EventView<E>)
    requires
        !run.is_acting(),
    ensures
        run.next(event) == run,
{
}

/// A failed action ends the run with its own failure, and leaves the configuration alone.
pub proof fn failure_ends_the_run<E>(run: RunView<E>, e: E)
    requires
        run.is_acting(),
    ensures
        run.next(EventView::Failed(e)) == (RunView { stage: StageView::Failed(e), ..run }),
        !run.next(EventView::Failed(e)).is_acting(),
{
}

/// Adopting a start token sets it, whichever was set before and whichever is the larger, and
/// leaves every other setting of the compressor and all of the run alone.
pub proof fn start_token_is_adopted(
    config: CompressTrainConfig,
    eos_id: u32,
    r: CompressTrainConfig,
)
    requires
        call_ensures(adopt_start_token, (config, eos_id), r),
    ensures
        r == with_start_token(config, eos_id),
        r.compress.bos_id == eos_id,
        r.compress.model == config.compress.model,
        r.compress.span_len == config.compress.span_len,
        r.compress.n_slots == config.compress.n_slots,
        r.compress.token_dropout == config.compress.token_dropout,
        r.compress.latent_dropout == config.compress.latent_dropout,
        r.compress.other == config.compress.other,
        r.train == config.train,
{
}

/// Of two tokens adopted one after the other, the later one stays.
pub proof fn later_token_stays(config: CompressTrainConfig, first: u32, second: u32)
    ensures
        with_start_token(with_start_token(config, first), second) == with_start_token(config, second),
        with_start_token(config, config.compress.bos_id) == config,
{
}

/// Whatever happens, the run keeps all of `train`, and of `compress` everything but the start
/// token.
pub proof fn run_keeps_its_settings<E>(config: CompressTrainConfig, events: Seq<EventView<E>>)
    ensures
        ({
            let now = after(config, events).config;
            &&& now.train == config.train
            &&& now.compress.model == config.compress.model
            &&& now.compress.span_len == config.compress.span_len
            &&& now.compress.n_slots == config.compress.n_slots
            &&& now.compress.token_dropout == config.compress.token_dropout
            &&& now.compress.latent_dropout == config.compress.latent_dropout
            &&& now.compress.other == config.compress.other
        }),
{
    only_the_start_token_changes(config, events);
}

/// The start token of a run, stage by stage. Until the datasets are open it is the configured
/// one. From then on it is the `eos_id` of the event that answered the opening of them; a run
/// that was refused or failed has the one or the other.
pub proof fn start_token_stage_by_stage<E>(config: CompressTrainConfig, events: Seq<EventView<E>>)
    ensures
        ({
            let run = after(config, events);
            let from_the_shard = exists|i: int|
                #![trigger events[i]]
                0 <= i < events.len() && after(config, events.take(i)).stage is Opening && events[i] == (
                EventView::<E>::Opened { eos_id: run.config.compress.bos_id });
            match run.stage {
                StageView::Checking | StageView::Clearing | StageView::Opening => run.config.compress.bos_id
                    == config.compress.bos_id,
                StageView::Rechecking
                | StageView::Saving
                | StageView::Launching
                | StageView::Finished => from_the_shard,
                _ => from_the_shard || run.config.compress.bos_id == config.compress.bos_id,
            }
        }),
    decreases events.len(),
{
    if events.len() > 0 {
        let earlier = events.drop_last();
        start_token_stage_by_stage(config, earlier);
        let before = after(config, earlier);
        let run = after(config, events);
        let last = events.len() - 1;
        assert(events.take(last) == earlier);
        if before.stage is Opening && events.last() is Opened {
            assert(events[last] == (EventView::<E>::Opened { eos_id: run.config.compress.bos_id }));
        } else {
            assert(run.config.compress.bos_id == before.config.compress.bos_id);
            if exists|i: int|
                #![trigger earlier[i]]
                0 <= i < earlier.len() && after(config, earlier.take(i)).stage is Opening && earlier[i]
                    == (EventView::<E>::Opened { eos_id: before.config.compress.bos_id }) {
                let i = choose|i: int|
                    #![trigger earlier[i]]
                    0 <= i < earlier.len() && after(config, earlier.take(i)).stage is Opening && earlier[i]
                        == (EventView::<E>::Opened { eos_id: before.config.compress.bos_id });
                assert(events.take(i) == earlier.take(i));
                assert(events[i] == earlier[i]);
            }
        }
    }
}

/// The datasets are opened once: a run past their opening never comes back to it.
pub proof fn datasets_open_once<E>(config: CompressTrainConfig, events: Seq<EventView<E>>, i: int, j: int)
    requires
        0 <= i < j <= events.len(),
        after(config, events.take(i)).stage is Opening,
        events[i] is Opened,
    ensures
        after(config, events.take(j)).stage !is Opening,
        after(config, events.take(j)).config.compress.bos_id == events[i]->eos_id,
    decreases j,
{
    assert(events.take(j).drop_last() == events.take(j - 1));
    assert(events.take(j).last() == events[j - 1]);
    if j > i + 1 {
        datasets_open_once(config, events, i, j - 1);
        lemma_past_the_opening(config, events, i, j - 1);
    }
}

proof fn lemma_past_the_opening<E>(
    config: CompressTrainConfig,
    events: Seq<EventView<E>>,
    i: int,
    j: int,
)
    requires
        0 <= i < j <= events.len(),
        after(config, events.take(i)).stage is Opening,
        events[i] is Opened,
    ensures
        ({
            let stage = after(config, events.take(j)).stage;
            stage !is Checking && stage !is Clearing && stage !is Opening
        }),
    decreases j,
{
    assert(events.take(j).drop_last() == events.take(j - 1));
    assert(events.take(j).last() == events[j - 1]);
    if j > i + 1 {
        lemma_past_the_opening(config, events, i, j - 1);
    }
}

/// A run starts with a check, on the configuration that it was given.
pub proof fn run_starts_with_a_check<E>(config: CompressTrainConfig, r: Run<E>)
    requires
        call_ensures(Run::<E>::start, (config,), r),
    ensures
        r@.config == config,
        r@.stage is Checking,
        after::<E>(config, Seq::empty()) == r@,
{
}

/// What each event does to a run.
///
/// An action that was done takes it to the next stage, and the opening of the datasets to the
/// second check, with the shard's token in place. A check lets it on to clear, or the second time
/// to save, where [`CompressTrainConfig::validate_given`] finds nothing, and otherwise ends it
/// with what was found. A failure ends it. An event that answers nothing changes nothing.
pub proof fn run_goes_on_by_events<E>(run: Run<E>, event: Event<E>, r: Run<E>)
    requires
        call_ensures(Run::<E>::advance, (run, event), r),
    ensures
        event is Done ==> r@.config == run@.config && match run@.stage {
            StageView::Clearing => r@.stage is Opening,
            StageView::Saving => r@.stage is Launching,
            StageView::Launching => r@.stage is Finished,
            _ => r@.stage == run@.stage,
        },
        event matches Event::Opened { eos_id } ==> if run@.stage is Opening {
            &&& r@.stage is Rechecking
            &&& r@.config.train == run@.config.train
            &&& r@.config.compress == (CompressConfig { bos_id: eos_id, ..run@.config.compress })
        } else {
            r@ == run@
        },
        event matches Event::Failed(e) ==> r@.config == run@.config && match run@.stage {
            StageView::Finished
            | StageView::Invalid(_)
            | StageView::Failed(_) => r@.stage == run@.stage,
            _ => r@.stage == StageView::<E>::Failed(e),
        },
        event matches Event::Checked { compress, train } ==> r@.config == run@.config && forall|
            verdict: Result<(), InvalidConfig>,
        | #[trigger]
            call_ensures(
                CompressTrainConfig::validate_given,
                (&run@.config, compress, train),
                verdict,
            ) ==> match (run@.stage, verdict) {
                (StageView::Checking, Ok(_)) => r@.stage is Clearing,
                (StageView::Rechecking, Ok(_)) => r@.stage is Saving,
                (StageView::Checking, Err(e))
                | (StageView::Rechecking, Err(e)) => r@.stage == StageView::<E>::Invalid(
                    Seq::new(e.faults@.len(), |i: int| e.faults@[i]@),
                ),
                _ => r@.stage == run@.stage,
            },
{
    match event {
        Event::Checked { compress, train } => {
            assert forall|verdict: Result<(), InvalidConfig>| #[trigger]
                call_ensures(
                    CompressTrainConfig::validate_given,
                    (&run@.config, compress, train),
                    verdict,
                ) implies match (run@.stage, verdict) {
                (StageView::Checking, Ok(_)) => r@.stage is Clearing,
                (StageView::Rechecking, Ok(_)) => r@.stage is Saving,
                (StageView::Checking, Err(e))
                | (StageView::Rechecking, Err(e)) => r@.stage == StageView::<E>::Invalid(
                    Seq::new(e.faults@.len(), |i: int| e.faults@[i]@),
                ),
                _ => r@.stage == run@.stage,
            } by {
                match verdict {
                    Ok(_) => {},
                    Err(e) => {
                        assert(text::texts(e.faults@) =~= Seq::new(
                            e.faults@.len(),
                            |i: int| e.faults@[i]@,
                        ));
                    },
                }
            }
        },
        _ => {},
    }
}

/// A run that checks itself goes on exactly where [`CompressTrainConfig::validate`] passes its
/// configuration, ends with what that found where it does not, and is left alone at a stage that
/// asks for no check.
pub proof fn run_checks_itself<E>(run: Run<E>, r: Run<E>, verdict: Result<(), InvalidConfig>)
    requires
        call_ensures(Run::<E>::check, (run,), r),
        call_ensures(CompressTrainConfig::validate, (&run@.config,), verdict),
    ensures
        r@.config == run@.config,
        match (run@.stage, verdict) {
            (StageView::Checking, Ok(_)) => r@.stage is Clearing,
            (StageView::Rechecking, Ok(_)) => r@.stage is Saving,
            (StageView::Checking, Err(e))
            | (StageView::Rechecking, Err(e)) => r@.stage == StageView::<E>::Invalid(
                Seq::new(e.faults@.len(), |i: int| e.faults@[i]@),
            ),
            _ => r@.stage == run@.stage,
        },
{
    match verdict {
        Ok(_) => {},
        Err(e) => {
            assert(text::texts(e.faults@) =~= Seq::new(e.faults@.len(), |i: int| e.faults@[i]@));
        },
    }
}

/// What a run asks for at each stage, and what it hands over with it.
pub proof fn run_asks_by_stage<E>(run: Run<E>, r: Action)
    requires
        call_ensures(Run::<E>::action, (&run,), r),
    ensures
        match run@.stage {
            StageView::Checking | StageView::Rechecking => r matches Action::Check { config } && config
                == run@.config,
            StageView::Clearing => r matches Action::RefuseToMerge { artifact_dir, resume_from_epoch }
                && artifact_dir@ == run@.config.train.artifact_dir@ && resume_from_epoch
                == run@.config.train.resume_from_epoch,
            StageView::Opening => r matches Action::OpenDatasets { train } && train
                == run@.config.train,
            StageView::Saving => r matches Action::Save { config, dir, file } && config == run@.config
                && dir@ == run@.config.train.artifact_dir@ && file@ == "config.json"@,
            StageView::Launching => r matches Action::Launch { train, compress, grad_accumulation }
                && train == run@.config.train && compress == run@.config.compress
                && grad_accumulation == run@.config.train.grad_accumulation,
            StageView::Finished | StageView::Invalid(_) | StageView::Failed(_) => r is Stop,
        },
{
}

/// What a run shows of itself is what it is: its configuration, and the stage that it is at.
pub proof fn run_shows_itself<E>(run: Run<E>, config: &CompressTrainConfig, stage: &Stage<E>)
    requires
        call_ensures(Run::<E>::config, (&run,), config),
        call_ensures(Run::<E>::stage, (&run,), stage),
    ensures
        *config == run@.config,
        match (*stage, run@.stage) {
            (Stage::Checking, StageView::Checking) => true,
            (Stage::Clearing, StageView::Clearing) => true,
            (Stage::Opening, StageView::Opening) => true,
            (Stage::Rechecking, StageView::Rechecking) => true,
            (Stage::Saving, StageView::Saving) => true,
            (Stage::Launching, StageView::Launching) => true,
            (Stage::Finished, StageView::Finished) => true,
            (Stage::Invalid(e), StageView::Invalid(faults)) => faults == Seq::new(
                e.faults@.len(),
                |i: int| e.faults@[i]@,
            ),
            (Stage::Failed(e), StageView::Failed(f)) => e == f,
            _ => false,
        },
        forall|given: Stage<E>| #[trigger]
            call_ensures(Run::<E>::into_stage, (run,), given) ==> given@ == stage@,
{
    match *stage {
        Stage::Invalid(e) => {
            assert(text::texts(e.faults@) =~= Seq::new(e.faults@.len(), |i: int| e.faults@[i]@));
        },
        _ => {},
    }
}

/// What an event says is what it was made with.
pub proof fn event_says_what_it_holds<E>(event: Event<E>)
    ensures
        match (event, event@) {
            (Event::Done, EventView::Done) => true,
            (Event::Opened { eos_id: a }, EventView::Opened { eos_id: b }) => a == b,
            (Event::Failed(a), EventView::Failed(b)) => a == b,
            (
                Event::Checked { compress, train },
                EventView::Checked { compress: found, train: fault },
            ) => {
                &&& match compress {
                    Ok(_) => found.len() == 0,
                    Err(faults) => found == Seq::new(faults@.len(), |i: int| faults@[i]@),
                }
                &&& match train {
                    Ok(_) => fault is None,
                    Err(text) => fault == Some(text@),
                }
            },
            _ => false,
        },
{
    match event {
        Event::Checked { compress, train } => match compress {
            Ok(_) => {},
            Err(faults) => {
                assert(text::texts(faults@) =~= Seq::new(faults@.len(), |i: int| faults@[i]@));
            },
        },
        _ => {},
    }
}

/// Which stages wait for an event, which work on the configuration, and in which order they come.
pub proof fn stages_of_a_run<E>(run: RunView<E>)
    ensures
        run.is_acting() <==> run.stage is Checking || run.stage is Clearing || run.stage is Opening
            || run.stage is Rechecking || run.stage is Saving || run.stage is Launching,
        run.is_working() <==> run.stage is Clearing || run.stage is Opening || run.stage is Rechecking
            || run.stage is Saving || run.stage is Launching || run.stage is Finished,
        run.progress() is None <==> run.stage is Invalid || run.stage is Failed,
        run.progress() == Some(0nat) <==> run.stage is Checking,
        run.progress() == Some(1nat) <==> run.stage is Clearing,
        run.progress() == Some(2nat) <==> run.stage is Opening,
        run.progress() == Some(3nat) <==> run.stage is Rechecking,
        run.progress() == Some(4nat) <==> run.stage is Saving,
        run.progress() == Some(5nat) <==> run.stage is Launching,
        run.progress() == Some(6nat) <==> run.stage is Finished,
{
}

/// A check clears a configuration exactly when it found nothing in either half, the window is
/// one span, the models agree, and the penalty is zero.
pub proof fn check_clears_exactly_when<E>(event: EventView<E>, config: CompressTrainConfig)
    ensures
        clears(event, config) <==> {
            &&& event matches EventView::Checked { compress, train } && compress.len() == 0
                && train is None
            &&& config.train.seq_len == config.compress.span_len
            &&& config.train.model.agrees_with(config.compress.model)
            &&& config.train.z_loss.spec_is_zero()
        },
{
    match event {
        EventView::Checked { compress, train } => {
            crate::train::sound_exactly_when(config, compress, train);
        },
        _ => {},
    }
}

/// What is launched is what was saved: between the two, nothing of the configuration changes.
pub proof fn launched_run_is_the_saved_one<E>(run: RunView<E>, event: EventView<E>)
    requires
        run.stage is Saving,
        run.next(event).stage is Launching,
    ensures
        event is Done,
        run.next(event).config.compress == run.config.compress,
        run.next(event).config.train == run.config.train,
{
}

} // verus!
