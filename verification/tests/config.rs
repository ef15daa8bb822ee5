use quark_compress::{
    decimal, failure_context, join, CompressConfig, CompressTrainConfig, FileStep, InvalidConfig,
    ModelConfig, NormPlacement, Scalar, Setting, Settings, TrainConfig, Value,
};

fn tiny() -> CompressTrainConfig {
    CompressTrainConfig::sync(CompressConfig::tiny(), TrainConfig::default())
}

/// The exact decimal that a float is shown as.
fn scalar(value: f64) -> Scalar {
    if value.is_nan() {
        return Scalar::NotANumber;
    }
    let negative = value.is_sign_negative();
    if value.is_infinite() {
        return Scalar::Infinite { negative };
    }
    let text = format!("{:e}", value.abs());
    let (mantissa, exponent) = text.split_once('e').unwrap();
    let fraction = mantissa.split_once('.').map_or(0, |(_, f)| f.len());
    Scalar::Finite {
        negative,
        digits: mantissa.replace('.', "").parse().unwrap(),
        exponent: exponent.parse::<i16>().unwrap() - fraction as i16,
    }
}

/// The default config is the one a user gets by typing nothing, so it had
/// better be one the harness accepts.
#[test]
fn the_default_config_is_valid() {
    CompressTrainConfig::default().validate().unwrap();
}

/// `sync` exists to make the duplicated fields agree; if it did not, every
/// caller would trip the validator.
#[test]
fn sync_makes_the_run_agree_with_the_compressor() {
    let cfg = CompressTrainConfig::sync(
        CompressConfig::tiny(),
        TrainConfig {
            seq_len: 999,
            ..TrainConfig::default()
        },
    );
    assert_eq!(cfg.train.seq_len, CompressConfig::tiny().span_len);
    assert_eq!(cfg.train.model, CompressConfig::tiny().model);
    cfg.validate().unwrap();
}

/// A hand-edited config where the window length and the span length have
/// drifted apart must fail here, not inside the first forward pass.
#[test]
fn a_window_that_is_not_a_span_is_rejected() {
    let mut cfg = tiny();
    cfg.train.seq_len = cfg.compress.span_len - 1;
    let err = cfg.validate().unwrap_err().to_string();
    assert!(err.contains("must equal compress.span_len"), "{err}");
}

/// A knob that does nothing is worse than a missing knob, because it looks
/// like it worked.
#[test]
fn a_z_loss_the_step_would_ignore_is_rejected() {
    let mut cfg = tiny();
    cfg.train.z_loss = scalar(1e-4);
    let err = cfg.validate().unwrap_err().to_string();
    assert!(err.contains("does not apply it"), "{err}");
}

#[test]
fn the_default_config_is_the_synced_compressor() {
    let cfg = CompressTrainConfig::default();
    assert_eq!(cfg.compress, CompressConfig::compressor_15m());
    assert_eq!(cfg.train.model, cfg.compress.model);
    assert_eq!(cfg.train.seq_len, cfg.compress.span_len);
    assert_eq!(cfg.train.artifact_dir, "artifacts/compress");
    assert_eq!(cfg.train.warmup_ratio, Some(scalar(0.02)));
    assert_eq!(cfg.train.z_loss, scalar(0.0));
    assert_eq!(
        cfg.train.grad_accumulation,
        TrainConfig::default().grad_accumulation
    );
}

#[test]
fn sync_keeps_everything_else_and_is_idempotent() {
    let train = TrainConfig {
        seq_len: 7,
        artifact_dir: "elsewhere".to_string(),
        z_loss: scalar(0.5),
        grad_accumulation: 9,
        resume_from_epoch: Some(3),
        ..TrainConfig::default()
    };
    let once = CompressTrainConfig::sync(CompressConfig::tiny(), train.clone());
    assert_eq!(once.compress, CompressConfig::tiny());
    assert_eq!(
        once.train,
        TrainConfig {
            model: ModelConfig::tiny(),
            seq_len: 16,
            ..train
        }
    );
    let twice = CompressTrainConfig::sync(CompressConfig::tiny(), once.train.clone());
    assert_eq!(once, twice);
}

#[test]
fn the_window_fault_names_both_lengths() {
    let mut cfg = tiny();
    cfg.train.seq_len = 15;
    assert_eq!(
        cfg.validate().unwrap_err().to_string(),
        "invalid CompressTrainConfig:\n  - train.seq_len (15) must equal compress.span_len (16): \
         the dataloader cuts windows to train.seq_len and the compressor asserts it received \
         span_len"
    );
}

#[test]
fn models_that_differ_are_rejected() {
    let mut cfg = tiny();
    cfg.train.model.norm_placement = NormPlacement::Post;
    assert_eq!(
        cfg.validate().unwrap_err().to_string(),
        "invalid CompressTrainConfig:\n  - train.model must equal compress.model: the vocabulary \
         check and the compressor's stacks are built from different copies of it"
    );

    let mut cfg = tiny();
    cfg.train.model.rope_theta = scalar(10001.0);
    assert_eq!(cfg.validate().unwrap_err().faults.len(), 1);
}

#[test]
fn a_model_with_a_setting_that_is_no_number_agrees_with_nothing() {
    let mut compress = CompressConfig::tiny();
    compress.model.dropout = scalar(f64::NAN);
    let cfg = CompressTrainConfig::sync(compress, TrainConfig::default());
    let err = cfg.validate().unwrap_err();
    assert_eq!(err.faults.len(), 1);
    assert!(err.to_string().contains("train.model must equal"));
}

#[test]
fn the_z_loss_fault_shows_the_coefficient_in_full() {
    for (z_loss, shown) in [
        (1e-4, "0.0001"),
        (-2.5, "-2.5"),
        (1e21, "1000000000000000000000"),
        (f64::NAN, "NaN"),
        (f64::NEG_INFINITY, "-inf"),
    ] {
        let mut cfg = tiny();
        cfg.train.z_loss = scalar(z_loss);
        assert_eq!(
            cfg.validate().unwrap_err().faults,
            vec![format!(
                "train.z_loss is {shown} but the compressor's step does not apply it; set it to 0"
            )]
        );
    }
}

#[test]
fn a_z_loss_of_either_zero_is_accepted() {
    for z_loss in [0.0, -0.0] {
        let mut cfg = tiny();
        cfg.train.z_loss = scalar(z_loss);
        cfg.validate().unwrap();
    }
}

#[test]
fn a_start_token_without_an_embedding_row_is_rejected() {
    let mut cfg = tiny();
    cfg.compress.bos_id = 63;
    cfg.validate().unwrap();
    cfg.compress.bos_id = 64;
    assert_eq!(
        cfg.validate().unwrap_err().faults,
        vec!["compress: bos_id (64) must be below model.vocab_size (64)".to_string()]
    );
    assert_eq!(
        cfg.compress.validate(),
        Err(vec![
            "bos_id (64) must be below model.vocab_size (64)".to_string()
        ])
    );
}

#[test]
fn a_step_of_no_micro_batches_is_rejected() {
    let mut cfg = tiny();
    cfg.train.grad_accumulation = 0;
    assert_eq!(
        cfg.validate().unwrap_err().faults,
        vec!["train: grad_accumulation must be at least 1".to_string()]
    );
}

#[test]
fn every_fault_is_reported_in_order() {
    let mut cfg = tiny();
    cfg.compress.bos_id = 70;
    cfg.train.grad_accumulation = 0;
    cfg.train.seq_len = 1;
    cfg.train.model = ModelConfig::quark_3m();
    cfg.train.z_loss = scalar(0.25);
    let err = cfg.validate().unwrap_err();
    assert_eq!(err.faults.len(), 5);
    let report = err.to_string();
    let mut from = 0;
    for opening in [
        "compress: bos_id (70)",
        "train: grad_accumulation",
        "train.seq_len (1)",
        "train.model",
        "train.z_loss is 0.25",
    ] {
        let at = report[from..].find(&format!("\n  - {opening}"));
        from += at.unwrap_or_else(|| panic!("{opening} is not in order in {report}"));
    }
    assert!(err.faults.iter().all(|fault| report.contains(fault)));
}

#[test]
fn the_findings_of_the_halves_come_under_their_headings() {
    let cfg = tiny();
    assert!(cfg.validate_given(Ok(()), Ok(())).is_ok());
    assert!(cfg.validate_given(Err(Vec::new()), Ok(())).is_ok());
    let err = cfg
        .validate_given(
            Err(vec!["first".to_string(), "second".to_string()]),
            Err("third".to_string()),
        )
        .unwrap_err();
    assert_eq!(
        err.to_string(),
        "invalid CompressTrainConfig:\n  - compress: first\n  - compress: second\n  - train: third"
    );
}

#[test]
fn a_report_is_a_heading_and_a_line_for_each_fault() {
    let report = InvalidConfig {
        faults: vec!["one".to_string(), "two".to_string()],
    };
    assert_eq!(
        report.to_string(),
        "invalid CompressTrainConfig:\n  - one\n  - two"
    );
}

#[test]
fn numbers_are_shown_as_floats_are() {
    for value in [
        0.0,
        -0.0,
        1.0,
        10.0,
        100.5,
        0.02,
        1e-5,
        123456.789,
        -7.25e-3,
        1e300,
        5e-324,
        f64::MAX,
        f64::MIN_POSITIVE,
        f64::INFINITY,
        f64::NEG_INFINITY,
        f64::NAN,
    ] {
        assert_eq!(scalar(value).to_text(), format!("{value}"));
    }
    assert_eq!(Scalar::decimal(1200, -2).to_text(), "12");
    assert_eq!(Scalar::decimal(0, 5).to_text(), "0");
    assert_eq!(Scalar::decimal(u64::MAX, -20).to_text(), "0.18446744073709551615");
}

#[test]
fn numbers_compare_as_floats_do() {
    let values = [0.0, -0.0, 1.0, -1.0, 10.0, 0.1, f64::INFINITY, f64::NEG_INFINITY, f64::NAN];
    for a in values {
        for b in values {
            assert_eq!(scalar(a) == scalar(b), a == b, "{a} and {b}");
        }
    }
    assert!(Scalar::decimal(10, -1) == Scalar::decimal(1, 0));
    assert!(Scalar::decimal(0, 3) == Scalar::zero());
    assert!(Scalar::decimal(1, -1) != Scalar::decimal(1, 0));
    assert!(Scalar::zero().is_zero() && !Scalar::decimal(1, -300).is_zero());
}

#[test]
fn decimals_and_lists() {
    assert_eq!(decimal(0), "0");
    assert_eq!(decimal(9), "9");
    assert_eq!(decimal(10), "10");
    assert_eq!(decimal(1234567890), "1234567890");
    assert_eq!(decimal(u64::MAX), "18446744073709551615");
    assert_eq!(join(&Vec::new(), ", "), "");
    assert_eq!(join(&vec!["a".to_string()], ", "), "a");
    assert_eq!(
        join(&vec!["a".to_string(), "".to_string(), "b".to_string()], ", "),
        "a, , b"
    );
}

#[test]
fn a_file_failure_names_the_step_and_the_path() {
    assert_eq!(
        failure_context(FileStep::Writing, "a/config.json"),
        "writing compressor config to a/config.json"
    );
    assert_eq!(
        failure_context(FileStep::Reading, "a/config.json"),
        "reading compressor config from a/config.json"
    );
    assert_eq!(
        failure_context(FileStep::Parsing, "a/config.json"),
        "parsing compressor config at a/config.json"
    );
}

#[test]
fn the_presets_are_sound() {
    for compress in [CompressConfig::tiny(), CompressConfig::compressor_15m()] {
        assert_eq!(compress.validate(), Ok(()));
    }
    assert_eq!(TrainConfig::default().validate(), Ok(()));
    assert_eq!(TrainConfig::default().model, ModelConfig::quark_3m());
    assert!(ModelConfig::tiny() != ModelConfig::quark_3m());
}

fn setting(name: &str, value: Value) -> Setting {
    Setting {
        name: name.to_string(),
        value,
    }
}

#[test]
fn a_setting_that_is_only_carried_still_tells_models_apart() {
    let width = |n| Settings::of(vec![setting("d_emb", Value::Number(Scalar::decimal(n, 0)))]);
    let mut compress = CompressConfig::tiny();
    compress.model.other = width(128);
    let cfg = CompressTrainConfig::sync(compress, TrainConfig::default());
    assert_eq!(cfg.train.model.other, width(128));
    cfg.validate().unwrap();

    let mut drifted = cfg.clone();
    drifted.train.model.other = width(256);
    let err = drifted.validate().unwrap_err();
    assert_eq!(err.faults.len(), 1);
    assert!(err.to_string().contains("train.model must equal"));

    let mut lost = cfg.clone();
    lost.train.model.other = Settings::none();
    assert_eq!(lost.validate().unwrap_err().faults.len(), 1);
}

#[test]
fn sync_keeps_the_carried_settings_of_the_run_and_the_compressor() {
    let decay = Settings::of(vec![setting("weight_decay", Value::Number(scalar(0.5)))]);
    let bottleneck = Settings::of(vec![setting("levels", Value::Nested("[8,5]".to_string()))]);
    let cfg = CompressTrainConfig::sync(
        CompressConfig {
            other: bottleneck.clone(),
            ..CompressConfig::tiny()
        },
        TrainConfig {
            other: decay.clone(),
            ..TrainConfig::default()
        },
    );
    assert_eq!(cfg.train.other, decay);
    assert_eq!(cfg.compress.other, bottleneck);
    assert_eq!(cfg.clone(), cfg);
}

#[test]
fn settings_compare_by_name_and_value() {
    let values = || {
        vec![
            Value::Absent,
            Value::Flag(true),
            Value::Flag(false),
            Value::Number(scalar(1.0)),
            Value::Number(scalar(-1.0)),
            Value::Number(scalar(1.5)),
            Value::Text("1".to_string()),
            Value::Nested("1".to_string()),
        ]
    };
    for (i, a) in values().into_iter().enumerate() {
        for (j, b) in values().into_iter().enumerate() {
            let a = Settings::of(vec![setting("s", copy(&a))]);
            assert_eq!(a == Settings::of(vec![setting("s", copy(&b))]), i == j);
            assert!(a != Settings::of(vec![setting("t", copy(&b))]));
        }
    }
    let nan = || Settings::of(vec![setting("s", Value::Number(Scalar::NotANumber))]);
    assert!(nan() != nan());
    let zero = |z| Settings::of(vec![setting("s", Value::Number(scalar(z)))]);
    assert!(zero(0.0) == zero(-0.0));
    let number = |s| Settings::of(vec![setting("s", Value::Number(s))]);
    assert!(number(Scalar::decimal(1, 0)) == number(Scalar::decimal(10, -1)));
    assert_eq!(zero(0.0).entries().len(), 1);
    assert!(Settings::none().entries().is_empty());
}

fn copy(value: &Value) -> Value {
    match value {
        Value::Absent => Value::Absent,
        Value::Flag(b) => Value::Flag(*b),
        Value::Number(s) => Value::Number(*s),
        Value::Text(s) => Value::Text(s.clone()),
        Value::Nested(s) => Value::Nested(s.clone()),
    }
}
