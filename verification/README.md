# ticker

Tick-driven task scheduling, verified with Verus.

- `src/` is the library, verified:
  - `timer`: the pacing timers (`ZeroSleepTimer`, `SleepTimer`), one wait
    step at a time;
  - `basic`: `TickerBasic`, a schedule of events by the tick they are due,
    with the cycle markers that count wrap-arounds of the tick counter;
  - `repeater`: `TickerRepeater` and `TickerRepeaterAlt`, which run every
    event on every tick and sweep out finished ones;
  - `package`: the packages a ticker runs (`TickerBox`, `TickerEternal`) and
    the decisions of when one runs and when it is finished;
  - `objects`: functions with their arguments, optionally behind a lock;
  - `registry`: `TickerVec` and `TickerMonitor`, collections of weak handles;
  - `controller`: the registry of worker threads by category, the random pick
    of a worker for a task, and the controller's tick count;
  - `watcher`: `TickerDebugWatcher`, which reports poisoned locks;
  - `maps`, `seqs`: facts about maps of sequences and thinned-out sequences.
- `app/` is the plumbing around it: the user-facing traits, worker threads,
  sleeping, printing, and the controller's run loop.
- `tests/` exercises the library on concrete values.
