# rustcommon

Fixed-size time types, log-linear histograms built on them, sliding window
histograms and heatmaps, written in Verus with their behaviour stated in
`requires` / `ensures` contracts and proved.

## Layout

* `src/clocksource` — coarse (32 bit seconds) and precise (64 bit
  nanoseconds) durations, instants and unix instants, their atomic forms,
  and the conversions from raw operating system clock readings.
* `src/histogram` — the bucket configuration (`config`), the standard,
  atomic, sparse and compact histograms, snapshots, rank queries (`rank`),
  and the sliding window histograms (`sliding_window`, `windowed`).
* `src/heatmap` — a ring of atomic histograms over slices of time with a
  summary histogram.
* `src/heatmap2` — a histogram with 32 bit atomic counters.
* `app` — what stays outside the verified crate: reading the monotonic
  clock, percentiles (floating point), human readable datetimes, error types
  with `std::error::Error`, and serialized forms.
* `tests` — tests of the library through its public interface.

## Main properties

* Every storable value lands in exactly one bucket whose range holds it, and
  each bucket's lower bound lands in that bucket; bucket indices grow with the
  values; a bucket above the cutoff is at most a `2^-grouping_power` part of
  its lower bound wide; a coarser configuration never splits a bucket.
* Adding (or subtracting) sparse histograms gives the sparse form of the sum
  (or difference) of the dense counters; the read-only form's running sums
  turn back into the counts, and answer rank queries as the sparse form does.
* A sliding window moves forward to the first tick past an instant at or
  after its next tick, never back, and refuses an instant earlier than its
  start without recording it; a heatmap's next tick moves to the first tick
  past the clock reading, and an increment's error says whether the time was
  out of span, the value out of range, or the clock stale.
