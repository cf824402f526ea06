# aivyx-broker

A local daemon that shares one `llama-server`, with its few KV-cache slots,
between several local processes, and hands out an exclusive lock for GPU work
other than inference.

What the broker decides is a verified library; what it does to the outside
world is ordinary Rust around it.

## Layout

- `src/` is the library, verified with Verus.
  - `scheduler` decides which slot a request gets, who waits for which slot,
    and who is woken when one becomes free; `scheduler_laws` states what holds
    of it as a whole.
  - `completion` is the life of a chat completion: admission, restoring or
    warming the slot's cache, forwarding, relaying, release. It is a state
    machine that is told what happened and says what to do next.
    `completion_laws` states, among others, that no two completions ever share
    a slot.
  - `gpu_lock` is the lease-based lock, `gpu_lock_laws` what holds of it.
  - `gpu` makes VRAM readings out of what `nvidia-smi` prints and the kernel
    lists; `vram_cache` shares them and keeps probes from piling up.
  - `llama_client` reads what `llama-server` reports of its slots and models.
  - `server` holds the broker's own answers, `config` its settings.
  - `json`, `text` and `wake` are what the others are built on.
- `app/` is the daemon: the HTTP routes, the requests to `llama-server`, the
  KV-cache store, the probes, and the background tasks.
- `tests/` runs the library.

## Waiting

A request that finds no slot, and a client that finds the GPU lock held, hands
the library the sending half of a oneshot channel and waits on the other half.
Whatever frees a slot or the lock hands back everyone who has to be woken. A
wake signal grants nothing: whoever receives it attempts again, so a signal to
a client that is gone does no harm.

## What is trusted

Six items are believed without proof, each with a comment on what is claimed of
it: tokio's `oneshot::Sender` and its `send`, three functions of `uuid`, and
`clap`'s parsing of the command line. Three results of the last have a name
without a definition: which values it finds, and the text and the exit status
when it finds none.
