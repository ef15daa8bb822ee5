# quark_compress

Training a compressor of token spans, with the decisions verified by Verus.

- `src/config.rs`, `src/train.rs`: the model, the compressor, the run, and what is wrong with a
  pair of them. Real-valued settings are exact decimals (`src/scalar.rs`), settings that nothing
  reads are carried and compared by name (`src/settings.rs`), and reports are text
  (`src/text.rs`, `src/file.rs`).
- `src/run.rs`: the course of a run, as a machine from events to actions.
- `src/step.rs`: the training and validation steps, for any model.
- `src/block.rs`: the transformer block, for any layers.
- `app/`: files, burn's tensors and the training loop around the library.

The laws that span several functions are the public proof functions of each module.
