# perturbation_kernel

Perturbative stability estimation with a bit-level reproducibility
guarantee, split into a verified core and a host runtime.

## Layout

- `src/` is the library, verified with Verus:
  - `reduce` — the fixed-shape pairwise reduction tree (`tree_sum`,
    `mean`, `sum_sq_dev`, `dot`, their scratch-reusing forms, the
    reference forms and the explicit-path forms), generic over the
    combining operation, with the scalar, 2-lane and 4-lane level loops
    written as portable code. Each result, on every path, is proved
    equal to the tree value of its input; for an associative operation the tree value is the
    sequential one, and with commutativity as well it depends only on
    the multiset of inputs.
  - `engine` — the per-index substream derivation (`mix64`, `fork_key`,
    `fork_rng`), the index-ordered ensemble loop, the ordered checks a
    run makes before it draws and the run itself in that order
    (`run_ordered`), the threading threshold and the report enrichment
    plan.
  - `family` — the built-in families as data, their hyperparameter
    validation and the checks a family run makes; proved to enforce the
    same configuration contract as the engine.
  - `config` — backends and their wire tags, the reduction policy, the
    SemVer major parser, version checking and accuracy claims.
  - `examples` — the worked examples' states, null parameters, readouts,
    declared constants and tags.
  - `gpu` — dispatch grids and the ping-pong schedule of the device
    reduction.
  - `abi` — the C-ABI error codes.
  - `float64` — `f64` values carried as IEEE-754 bit patterns, with the
    classification and comparisons the validation reads.
- `app/` is the host runtime around it: the `f64` estimators and error
  bounds, the component traits, the JSON wire formats and the C ABI.
- `tests/` exercises the library.
