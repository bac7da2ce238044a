# blob_gc

Mark and sweep garbage collection for a content addressed blob store, verified with Verus.

The collector is a set of machines that decide; the caller performs. Each step takes the answer to
the last action and gives the next one.

- `src/digest.rs`, `src/set.rs`, `src/chunks.rs`, `src/text.rs`, `src/event.rs`: digests and
  claims, sets of them, chunk ranges, message texts, events.
- `src/mark.rs`: the mark phase. Every tag and temporary tag is a root; a root claimed as a
  collection is traversed, whether or not its digest is live already.
- `src/sweep.rs`: the sweep phase. Listed blobs that are not live are deleted in batches.
- `src/cycle.rs`: one cycle. A mark that could not read a member of a claimed collection is not
  followed by a sweep.
- `src/schedule.rs`: the endless schedule, with its protection callback.
- `src/history.rs`, `src/laws.rs`: what happened in a cycle, and what holds of every cycle and
  every schedule, whatever the store answers.
- `app/`: the asynchronous loop that asks the store, sleeps and logs.
