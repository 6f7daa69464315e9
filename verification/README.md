# omnigraph

The recovery core of a branching graph store, verified with Verus.

A writer that changes several tables first stores a *sidecar*: a record of what it is
about to do. When the writer stops half-way, a recovery pass finds the sidecar, compares
it with the tables and the manifest, and publishes the attempt, undoes it, or leaves it
for somebody with more authority. The library holds every decision of that pass, and the
reading and assembling of the manifest itself.

## Layout

- `src/sidecar.rs`, `src/identity.rs`, `src/snapshot.rs`, `src/history.rs`: the records
  that recovery works on, each with a model.
- `src/shape/`: which sidecars are well-formed.
- `src/arm.rs`, `src/confirm/`: how a writer makes a sidecar and confirms its effects.
- `src/store.rs`: how sidecars are named, listed, parsed and read again.
- `src/classify.rs`, `src/process/`: what a sidecar's tables show, and the next step.
- `src/rollback.rs`, `src/rollforward.rs`, `src/publish.rs`, `src/outcome.rs`: what a step
  publishes and records.
- `src/sweep.rs`: a pass over all pending sidecars.
- `src/batch.rs`, `src/rows.rs`, `src/lineage.rs`, `src/state.rs`: the rows of the
  manifest, and the state and lineage that they add up to.
- `src/laws/`: what holds across functions.
- `app/`: storage, tables, queues and serialized forms around the library.
