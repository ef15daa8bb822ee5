use quark_compress::{
    adopt_start_token, Action, CompressConfig, CompressTrainConfig, Event, Run, Stage, TrainConfig,
};

fn config() -> CompressTrainConfig {
    CompressTrainConfig::sync(
        CompressConfig::tiny(),
        TrainConfig {
            artifact_dir: "artifacts/trial".to_string(),
            resume_from_epoch: Some(2),
            grad_accumulation: 3,
            ..TrainConfig::default()
        },
    )
}

fn sound<E>() -> Event<E> {
    Event::Checked {
        compress: Ok(()),
        train: Ok(()),
    }
}

#[test]
fn a_run_checks_clears_opens_checks_saves_launches_and_finishes() {
    let run: Run<String> = Run::start(config());
    match run.action() {
        Action::Check { config: checked } => assert_eq!(checked, config()),
        other => panic!("{other:?}"),
    }
    let run = run.check();
    match run.action() {
        Action::RefuseToMerge {
            artifact_dir,
            resume_from_epoch,
        } => {
            assert_eq!(artifact_dir, "artifacts/trial");
            assert_eq!(resume_from_epoch, Some(2));
        }
        other => panic!("{other:?}"),
    }
    let run = run.advance(Event::Done);
    match run.action() {
        Action::OpenDatasets { train } => assert_eq!(train, config().train),
        other => panic!("{other:?}"),
    }
    let run = run.advance(Event::Opened { eos_id: 5 });
    match run.action() {
        Action::Check { config: checked } => assert_eq!(checked, adopt_start_token(config(), 5)),
        other => panic!("{other:?}"),
    }
    let run = run.check();
    match run.action() {
        Action::Save { config: saved, dir, file } => {
            assert_eq!(saved, adopt_start_token(config(), 5));
            assert_eq!(dir, "artifacts/trial");
            assert_eq!(file, "config.json");
        }
        other => panic!("{other:?}"),
    }
    let run = run.advance(Event::Done);
    match run.action() {
        Action::Launch {
            train,
            compress,
            grad_accumulation,
        } => {
            assert_eq!(train, config().train);
            assert_eq!(compress, adopt_start_token(config(), 5).compress);
            assert_eq!(grad_accumulation, 3);
        }
        other => panic!("{other:?}"),
    }
    let run = run.advance(Event::Done);
    assert!(matches!(run.stage(), Stage::Finished));
    assert!(matches!(run.action(), Action::Stop));
    assert_eq!(*run.config(), adopt_start_token(config(), 5));
}

#[test]
fn the_shards_token_is_all_that_changes() {
    let adopted = adopt_start_token(config(), 41);
    assert_eq!(adopted.compress.bos_id, 41);
    assert_eq!(adopted.train, config().train);
    assert_eq!(
        CompressConfig {
            bos_id: config().compress.bos_id,
            ..adopted.compress
        },
        config().compress
    );
    assert_eq!(adopt_start_token(config(), 0), config());
}

#[test]
fn an_invalid_config_is_checked_and_nothing_else() {
    let mut invalid = config();
    invalid.train.seq_len = 3;
    let mut run: Run<String> = Run::start(invalid.clone()).check();
    for event in [
        Event::Done,
        Event::Opened { eos_id: 1 },
        sound(),
        Event::Failed("x".to_string()),
    ] {
        assert!(matches!(run.action(), Action::Stop));
        run = run.advance(event);
    }
    assert_eq!(*run.config(), invalid);
    match run.into_stage() {
        Stage::Invalid(err) => assert_eq!(err.faults, invalid.validate().unwrap_err().faults),
        other => panic!("{other:?}"),
    }
}

#[test]
fn halves_that_disagree_are_refused_whatever_their_own_checks_found() {
    let mut invalid = config();
    invalid.train.seq_len = 3;
    let run: Run<String> = Run::start(invalid).advance(sound());
    assert!(matches!(run.stage(), Stage::Invalid(err) if err.faults.len() == 1));
}

#[test]
fn a_check_of_the_callers_own_is_heeded() {
    let run: Run<String> = Run::start(config()).advance(Event::Checked {
        compress: Err(vec!["n_slots must divide span_len".to_string()]),
        train: Err("no shards".to_string()),
    });
    match run.into_stage() {
        Stage::Invalid(err) => assert_eq!(
            err.to_string(),
            "invalid CompressTrainConfig:\n  - compress: n_slots must divide span_len\n  - train: \
             no shards"
        ),
        other => panic!("{other:?}"),
    }
}

#[test]
fn a_token_without_an_embedding_row_stops_the_run_before_it_is_saved() {
    let run: Run<String> = Run::start(config());
    let run = run
        .check()
        .advance(Event::Done)
        .advance(Event::Opened { eos_id: 64 })
        .check();
    assert!(matches!(run.action(), Action::Stop));
    match run.into_stage() {
        Stage::Invalid(err) => assert_eq!(
            err.faults,
            vec!["compress: bos_id (64) must be below model.vocab_size (64)".to_string()]
        ),
        other => panic!("{other:?}"),
    }
}

#[test]
fn a_failure_at_any_stage_ends_the_run() {
    let events = || {
        vec![
            sound(),
            Event::Done,
            Event::Opened { eos_id: 1 },
            sound(),
            Event::Done,
        ]
    };
    for stage in 0..=5 {
        let mut run: Run<String> = Run::start(config());
        for event in events().into_iter().take(stage) {
            run = run.advance(event);
        }
        let before = run.config().clone();
        let run = run.advance(Event::Failed("disk".to_string()));
        assert!(matches!(run.stage(), Stage::Failed(e) if e == "disk"));
        assert_eq!(*run.config(), before);
        assert!(matches!(run.action(), Action::Stop));
        let run = run.advance(Event::Failed("later".to_string()));
        assert!(matches!(run.into_stage(), Stage::Failed(e) if e == "disk"));
    }
}

#[test]
fn an_event_that_answers_nothing_changes_nothing() {
    let run: Run<String> = Run::start(config()).advance(Event::Opened { eos_id: 9 });
    assert!(matches!(run.stage(), Stage::Checking));
    assert_eq!(*run.config(), config());
    let run = run.check().check();
    assert!(matches!(run.stage(), Stage::Clearing));
    let run = run.advance(Event::Done).advance(Event::Done);
    assert!(matches!(run.stage(), Stage::Opening));
    let run = run.advance(Event::Opened { eos_id: 9 });
    let run = run.advance(Event::Opened { eos_id: 8 });
    assert!(matches!(run.stage(), Stage::Rechecking));
    assert_eq!(run.config().compress.bos_id, 9);
}
