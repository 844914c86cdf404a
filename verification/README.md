# zerolaunch

The decision logic of the ZeroLaunch launcher's plugin and model services,
verified with Verus.

- `src/` is the verified library:
  - `protocol`: JSON values, JSON-RPC messages, frame encoding and log
    summaries of binary payloads;
  - `host_api`, `sdk`: what a plugin sends for each host call and how answers
    are read; translation keys in the plugin's namespace;
  - `model`: model metadata, provider settings, request admission and routing,
    embedding templates, the embedding cache (keys, on-disk format, memory
    level), and the request plans of the Ollama and OpenAI-compatible
    providers;
  - `translate`: reading a model's translation reply;
  - `candidates`, `pipeline`: the search candidate cache and the keyword and
    engine decisions of the search pipelines;
  - `zlplugin`, `platform`: plugin asset requests, icons and the system theme.
- `app/` is the runtime around it: serialization, HTTP clients, file access,
  async plumbing and floating-point scoring.
- `tests/` run the library on concrete inputs.
