# tracerate

A command-line internet speed tester: download and upload speed, ping,
jitter and connection failures, bufferbloat grade, DNS time, ISP and
location, and latency to regional servers.

## Layout

- `src/` — the verified library (Verus). Every measurement is reduced to
  fixed-point integers — microseconds for raw latency samples, hundredths
  of a millisecond for reported latency, hundredths of a megabit per second
  for throughput, tenths of a percent for failure rates — and every decision
  and every piece of report text is computed and proved here:
  - `util` — rounding and unit conversions;
  - `stats` — sorting, minimum, maximum and sum of samples;
  - `bufferbloat` — nearest-rank percentile, grading and the probe summary;
  - `tester` — ping statistics, transfer throughput, the run plan;
  - `regional` — the regional servers and their best latency;
  - `info` — merging the address lookup with the edge metadata;
  - `verdict` — the diagnosis and the list of issues;
  - `output` — bars, figures, colours and the order of report rows;
  - `text` — decimal rendering.
- `app/` — the program: network I/O, timing, progress display, colours and
  JSON output, handing plain values to the library.
- `tests/` — tests of the library.
