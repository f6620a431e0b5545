# lux

The back end and the tools of Lux, a small language for the BEAM whose functions
are modules named by their content. The library is written in Verus: what each
function computes is stated in its contract and proved.

## The library (`src/`)

- `ast`, `erlang`: the syntax tree that comes in, and Core Erlang.
- `lower`, `builtins`, `shape`, `make`, `decode`: expressions to Core Erlang.
- `canon`, `emit`: canonical names, and Core Erlang as text.
- `fingerprint`, `graph`, `order`, `hashing`, `hash_pass`, `translate`: content
  addresses of functions, and a module for each function.
- `native`, `native_*`, `runtime`, `runtime_c`, `link`: native code through
  Cranelift, and the C runtime that it is linked with. `native_sound` proves that
  the steps of every plan fit together, `native_frame` that their stack slots have
  room, and `native_mirror` that a builder can make them; `native_scope` holds the
  laws of free variables, and `native_warn` says what a compilation warns of.
- `cli`, `libs`, `service`, `mcp`, `repl*`, `json`, `json_text`, `words`: what the
  programs do with command lines, requests and answers.
- `swap`, `swap_shape`, `canon_stable`, `twin`, `print_twin`, `print_binders`,
  `core_alike`, `shape_alike`, `lower_alike`, `components`, `reorder`, `content`,
  `renaming`, `evidence`: what holds of canonical forms, fingerprints, call graphs
  and content addresses. Exchanging two names everywhere, giving the bound
  variables of any function new names, and reordering functions leave addresses as
  they are; the laws say which names stay. Equal addresses mean equal content and
  equal dependencies, as far as the hash has no collisions.

Cranelift, serde_json, and the few functions of the standard library without a
specification, are reached through functions marked `external_body` or through
`assume_specification`; each says what it relies on.

## The programs (`app/`)

Files, processes, the terminal and HTTP. The front end and the store of live
code come in through the trait `Host`.
