# rmlx

Attention over a quantized KV cache, for decoders whose layers share K/V.

- `src/kvcache`: one attention step of a layer. Which path a step takes, what it
  appends, what it attends, when the offset moves, and what it leaves to the
  layers that share its K/V. `laws.rs` and `share_laws.rs` state what holds of a
  whole step, and between a producer layer and its consumers.
- `src/storage`: the host side of the four-bit rotor V store.
- `src/gemma4`: masks, attention, decoder layers and forward passes of a text
  decoder with cross-layer K/V sharing. `attention_laws.rs`, `model_laws.rs` and
  `row_laws.rs` state what holds of a layer, of a whole pass, and of what it reads
  off row by row.
- `src/gates.rs`: the switches of the process.
- `app`: drives all of it on a tensor runtime.

The library never touches a device. A step is a conversation: it asks for one
runtime call at a time, by tensor numbers, shapes and element types, and goes on
with the answer. The forward passes work the same way with straight-line
programs of tensor operations. What happens between two calls is proved with
Verus; the laws quantify over everything that a runtime may answer.
