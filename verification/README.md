# objeta

Planning and residency for mixture-of-experts models on small devices.

The library under `src/` holds the decisions: how a checkpoint's tensors are laid
out, which experts are hot, which are stored in how many bits and which may be
pruned, how quantized blocks are packed and read, which experts a token selects, and
which of their tensors stay on the device between tokens. The functions are verified
with Verus against contracts over sequences, maps and numbers. Floating-point
numbers are held as their bit patterns; `ieee` says what the patterns stand for.

Four contracts on the standard library are trusted and not proved: what
`String::push` does, and, in three wrappers of one call each, that the quoted form of
a text (`deepseek::debug_quote`), its upper case (`gate::to_upper`) and the text of
raw bytes (`device::decode_lossy`) depend on their argument alone.

The program under `app/` does what needs files, a device or floating-point
arithmetic: it reads and writes the JSON files, runs kernels through the CUDA
driver, computes scores and errors, and asks the library for every decision.

| module | what it decides |
| --- | --- |
| `aot` | the passes of a specialization: layout, calibration, phases, precision, pruning, verification, report |
| `analysis` | phases, families and zones of a model's layers |
| `cache`, `session`, `residency`, `history` | the device cache, a run of experts step by step, what stays cached, and what whole runs load |
| `deepseek`, `gate`, `options`, `run` | one layer of a model: its tensors, its experts, its report |
| `quant`, `packing`, `ieee` | block formats, their bytes, and the numbers they stand for |
| `device`, `launch`, `metal` | devices, launch shapes, build commands |
| `bench`, `flags`, `rank`, `assoc`, `text`, `error` | options, orders, text and errors |
