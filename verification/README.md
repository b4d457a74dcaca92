# melange

A terminal dashboard that reads an Apple Silicon machine and the language
models stored on it, and tells what fits in memory, how fast it should
generate, and at what context length it starts to swap.

The library (`src/`) holds the logic, each function with a contract proved
by Verus:

- `models`: the GGUF header reader, the metadata of safetensors and Ollama
  models, and the memory estimates (KV cache per token, estimates per
  context, the largest context that stays out of swap, the fit status);
- `hardware`: what the system tools print, turned into CPU, memory, GPU,
  disk, engine and VPN descriptions (including the applications holding the
  most memory);
- `compat`: which engine warnings apply to a model, and merging user entries;
- `config`, `app`, `display`: the configured directories, the dashboard's
  key handling and the text its panels show;
- `update`: versions, release assets and the archive of a release;
- `text`: the string helpers the rest is built on.

`app/` is the program around it: command line, files, processes, network,
floating-point figures and the ratatui interface.
