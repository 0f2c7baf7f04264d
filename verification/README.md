# gpubench

Evaluates the health of a GPU: how much of its memory is there and keeps what
is written, how fast and how right its matrix products are, how fast its memory
is, whether it stays right and fast under load, and how exact it computes.

- `src/` is the library, verified with Verus. It plans what a device is to do,
  as data, judges what the device brings back, and makes the report. It never
  computes in floating point: numbers that are measured come as bit patterns,
  which it orders.
- `app/` is the tool around it: Vulkan, the terminal, the clock, and the
  arithmetic in floating point.
- `tests/` runs the library, some of it on a device in software.

| Module | What it holds |
| --- | --- |
| `benchmarks` | the five benchmarks: their programs, their verdicts, their inputs |
| `program`, `session` | device programs as data, and performing them step by step |
| `ideal` | what programs do on a device without faults that computes exactly |
| `compute`, `memory`, `vulkan`, `gpu_info` | kernels, buffers and transfers, devices |
| `report`, `cli` | the report, and the command line |
| `float_bits`, `rounding`, `score`, `text` | bit patterns, rounding, scores, texts |

The files whose names end in `_laws` state what holds of whole benchmarks:

- A device without faults that computes exactly is never blamed. Where results
  are rounded to single precision, this is stated of the numbers of the
  precision benchmark alone; the matrix products and the load are not covered.
- A program that runs to its end leaves nothing allocated. One that is stopped
  leaves nothing either where the task that failed names what to release. A
  plain task names nothing, and nor does the one that reads the counter of the
  bandwidth benchmark: where such a task fails, what was allocated before it
  stays allocated.
