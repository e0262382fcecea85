# sj-probe

A verified core for the SAPHOJUICE speed probe, which measures the physical constants
that decide how fast a machine runs a local language model (memory bandwidth, compute,
sustained ceilings, storage, CPU and ISA inventory) and predicts decode speed for a table
of reference models.

* `src/` is the library, written in Verus and proved: SHA-256 with a streaming hasher,
  the JSON writer and flat key lookup, FNV-1a, option parsing, the readers for what the
  operating system reports (cpuinfo, meminfo, power plan, battery, registry overlay),
  the measurement plan (thread counts, working sets, storage data, calibration token count),
  the download check, the share prompt's decision, and the shared payload (which fields
  it holds, with the measured numbers handed in as text).
* `app/` is the program around it: the timed floating-point kernels, threads, process
  and file I/O, HTTPS through `ureq`, and the report and receipt, whose numbers are floats.
* `tests/` runs the library on concrete inputs, including the SHA-256 test vectors.
