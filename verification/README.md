# paddock

A control panel for [FreeToken](https://github.com/FlashML-org/FreeToken): browse and
download checkpoints, convert them to FTW, configure and supervise `ft serve`, resize its
cache pools, and watch what it does.

The decisions are a verified library. What the program decides, and what it says, is stated
in the contracts of `src/` and proved with Verus; what it does to the machine is left as
values (an `Effect`, a `Launch`, an `Apply`) for the program in `app/` to carry out.

- `src/knobs.rs`, `src/plan.rs`, `src/cache_pools.rs`: the `ft serve` configuration, the plan
  for a machine, and the cache pools of a running engine.
- `src/compat.rs`: whether a repo can run here, from its `config.json` alone.
- `src/models.rs`, `src/templates.rs`, `src/sampling.rs`, `src/overrides.rs`: the library of
  checkpoints and the overrides written into them.
- `src/hub.rs`: the Hugging Face Hub and downloads.
- `src/ft/`: FreeToken's CLI, its control plane and its processes.
- `src/actions/`, `src/state.rs`: every operation of the front end, as a function of its
  state.
- `src/config.rs`, `src/runtime.rs`, `src/doctor.rs`, `src/probe.rs`, `src/reuse.rs`: the
  configuration, the samplers, the diagnosis and the measurements.
- `src/text.rs`, `src/text_map.rs`, `src/json.rs`, `src/numeral.rs`, `src/order.rs`,
  `src/paths.rs`, `src/shell.rs`, `src/util.rs`: what the rest is written with.

Public proof functions named `law_...` state what holds of several functions together.
