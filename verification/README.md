# prompt-triage

A small local classifier that guesses whether a prompt to a coding agent is
*trivial* (something you could do yourself in under two minutes) and learns
from your answer to every guess. A sentence-embedding model runs locally, and a
logistic regression on top of it is refitted after each label.

`src/` is the library, verified with Verus. It holds every decision: what a
prompt asks for, what is kept pending, what becomes a row of the dataset, when
the weights are refitted, how the guesses are marked, and how the dataset file
is cut into rows. It reads and writes no files. A command is a conversation: the
library names the next action, the caller carries it out and hands the event
back (`src/session.rs`). `src/protocol.rs` states which action follows which
event, and `src/laws.rs` proves what whole commands do to the data.

`app/` is the program around it: the command line, the files, loading the
embedding model, printing, and the floating-point arithmetic of the regression. The
library carries floating-point numbers by their bit patterns (`src/single.rs`).
The ONNX runtime is not linked in: the program loads its shared library when it
runs, from the system's library path or from `$ORT_DYLIB_PATH`.

`tests/` runs the library on concrete values.

## Commands

```
triage setup             download the model, create random initial weights
triage hook              read UserPromptSubmit JSON on stdin, print one JSON line
triage label trivial|not label the pending prompt by hand and refit
triage predict "<text>"  score a text without keeping it pending
triage stats             dataset size, class balance, accuracy
```

## Data

Data lives in `~/.local/share/prompt-triage/` (or `$PROMPT_TRIAGE_DIR`):

| file | content |
| --- | --- |
| `dataset.jsonl` | one line per labeled prompt: id, timestamp, prompt, embedding, probability at prediction time, label |
| `pending.json` | the last scored prompt waiting for its label |
| `weights.json` | the classifier: 384 weights and a bias |
| `models/` | the embedding model cache |

## What is trusted

The proofs rest on contracts for a few outside functions: `serde_json::from_str`
and indexing of its `Value` (`src/json.rs`), and `Path::join`, `str::trim`,
`str::to_ascii_lowercase` and `std::str::from_utf8` of std (`src/store.rs`,
`src/text.rs`). Of `rand::random` (`src/id.rs`) nothing is claimed, of
`dirs::data_dir` (`src/store.rs`) only that an answer is its own, and of
`TextEmbedding::embed` (`src/embed.rs`) only which model and which text a result
belongs to.
