# rzem_ai_inference

The verified core of the RZEM AI image generation application, written in
Verus. The functions in `src/` carry contracts that Verus proves. The
calls into std and into outside crates sit behind small trusted wrappers,
whose contracts are believed rather than proved, and the timer reads the
clock, so nothing is stated of the times it gives.

- `src/batch`: batch prompt data (CSV through the `csv` crate, JSON
  through `serde_json`), every combination of column values, and rendering a
  prompt template per row through `minijinja`.
- `src/chatbot.rs`, `src/image_analysis.rs`: the prompt-refinement chat
  (system prompt, turns, the assistant's reply and its suggested prompt)
  and reading the prompt an image analysis returns.
- `src/client`: addresses of a remote inference server and what its HTTP
  statuses mean.
- `src/db`, `src/gallery.rs`: the folder tree, folder moves and where a
  moved folder goes among its siblings, bundle responses, what a model
  scan decides for each bundle (its VRAM, whether it is complete, which
  components it requires), and the file names of generated images.
- `src/inference`: model-cache policy, the LRU prompt-embedding cache,
  samplers and schedulers, progress messages, statistics, the parameters
  text embedded in generated images (written and read back), PNG files
  carrying it as text chunks (through the `png` crate), base64 JPEG
  previews (through `image` and `base64`), the GPU memory report and the
  staged-loading decision.
- `src/model_manager`: the model taxonomy, models on disk (names, weight
  files, hashing, metadata, repository variants) and the model search.
- `src/json_text.rs`: JSON text read through `serde_json` into the
  library's own values, one level at a time.
- `src/text.rs`, `src/lines.rs`, `src/numbers.rs`: text, line and number
  handling the rest relies on.

`app/` is the program around the library: command-line handling, files,
directories, SQLite, serde on the records, running `nvidia-smi`, and the floating-point
schedules, progress and sizes.
