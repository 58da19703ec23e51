# pesti

The verified core of a small transformer-inference runtime, written in Verus.

## Layout

- `src/` — the library. Every function is proved against its contract,
  except the trusted items listed below, whose contracts are believed:
  - `gguf_types`, `gguf_parser`: the GGUF container — value and tensor
    types, dtype codes and block layouts, a parser over a file's bytes that
    is specified by spec functions reading the format, the data-section
    layout and tensor extraction;
  - `dequant_plan`: which conversion a tensor's dtype takes to `f32`, and
    the stored size each block dequantizer requires;
  - `lenient_gguf`: a second, lenient header reader for files in a
    non-standard layout (keys without lengths, aligned string values);
  - `safetensors_weight_loader`: SafeTensors tensors, with half-precision
    tensors widened to `f32` bit patterns;
  - `model_loader`, `tokenizer`: the loader's header queries, the tokenizer
    settings read from GGUF metadata and the prompt tokenizer front end;
  - `model_manager`: the registry of loaded models, clean-up of stale models
    and the preload queue;
  - `gemm`, `builder`, `attention`, `tma_descriptor`, `device_buf`,
    `dispatch`: kernel configuration, launch geometry, buffer checks and
    descriptor encoding;
  - `cuda_runtime`, `device_discovery`: device descriptions and selection;
  - `conformance`, `tier`, `llama`, `pesti_llama`, `manifest`, `error`,
    `text`, `le_bytes`: verdicts, tiering, runner settings, error texts and
    small helpers.
- `tests/`: tests of the library.
- `app/`: the command-line conformance runner and what the library does not
  hold: file, process, clock and database access, the asynchronous model
  manager, and the floating-point kernels and dequantizers.

## Trusted items

These functions call outside code; Verus believes their contracts without
proof.

- `le_bytes`: `read_u16_le`, `read_u32_le`, `read_u64_le` (byteorder's
  little-endian reads).
- `text`: `push_char`, `push_str`, `string_from_utf8`,
  `string_from_utf8_lossy` (std's `String` operations), with the name
  `utf8_lossy`.
- `gguf_parser`: `utf8_error_text` (the text of std's UTF-8 error).
- `error`: `sqlite_error_text`, `json_error_text` (the rusqlite and
  serde_json error texts); the declared types `rusqlite::Error` and
  `serde_json::Error`.
- `model_loader`: the declared type `rusqlite::Connection`.
- `safetensors_weight_loader`: `deserialize_file`, `read_file_metadata`,
  `tensor_views`, `tensor_view`, `view_dtype_name`, `view_shape`,
  `view_data`, `metadata_entries`, `error_text` (the safetensors crate), with
  the names `safetensors_accepts`, `safetensors_tensors`, `held_tensors`,
  `view_parts`, `safetensors_header_strings` and `metadata_strings`, and the
  declared types `SafeTensors`, `TensorView`, `SafeTensorError`, `Metadata`.
- `tokenizer`: `bpe_for_model` (tiktoken-rs, name `tiktoken_knows_model`),
  `hf_encode` (tokenizers, relation `hf_encodes`: an outcome of encoding
  the given text), `hf_decode` (tokenizers, name `hf_decoded`); the declared
  type `tokenizers::Tokenizer`.

## Not included

The CUDA runtime and device handles, the inference engine, the kernel
dispatch context and the llama.cpp runner need the CUDA driver and the
candle and llama.cpp bindings, which are not dependencies of this crate.
