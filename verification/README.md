# ntex_driver

A verified core for a readiness-based stream driver, with the service
composition types that sit on top of it.

* `src/driver.rs` — the registry of streams: reference-counted handles,
  read/write/error flags, the queue of readiness events and the handle drops
  that must wait while the streams are held. Every operation returns the
  poller requests it calls for instead of making them.
* `src/flags.rs` — the per-stream bit set.
* `src/slab_store.rs` — the `slab` collection holding the streams, behind
  trusted wrappers whose contracts speak of the slab's contents.
* `src/laws.rs` — properties across operations (handle counts equal live
  handles plus deferred drops, a handle taken and dropped
  leaves no trace, deferred drops act as immediate ones, pause/resume undo
  each other, failures withdraw interests once).
* `src/service.rs`, `src/chain.rs`, `src/utils.rs` — service traits and
  builder types.
* `app/` — the runtime side: the `ntex-neon` poller handler, stream handles,
  system calls, and the asynchronous half of the service traits.
