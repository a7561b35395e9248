# tuxtests

Linux hardware and drive diagnostics: block devices and their connection lineage,
SMART health from `smartctl`, PCIe link and ASPM facts from sysfs and `lspci`, kernel
log anomalies per drive, a write benchmark guarded by a free-space rule, and an AI
analysis (Gemini or a local Ollama server) grounded in a system prompt built from the
collected facts.

Layout:

- `src/` — the verified library. Each module states its rules as spec functions and
  proves its executable functions against them:
  `text` (trimming, splitting, number parsing and formatting), `json` (JSON documents
  and pointer lookups), `smart` (reading smartctl's JSON and exit status), `pci`
  (PCI addresses, lspci output, link enrichment), `storage` (lsblk records, fstab),
  `system` (os-release, host identity, udev lineages), `rag` (kernel log retrieval),
  `config` (provider, model and Ollama URL normalization), `analyzer` (provider
  routing and the system prompt), `providers` (Gemini and Ollama request and response
  shapes), `engine` (configuration updates, findings, payload assembly), `throughput`
  (benchmark safety), `dashboard` (terminal dashboard state and panel contents).
  Where a module has laws, they close it: public proof functions over the same spec
  functions.
- `tests/` — tests of the library on concrete values.
- `app/` — the `tuxtests` command: argument handling, running programs and reading
  files, HTTP calls to the AI providers, the keyring, TOML and JSON (de)serialization,
  and the terminal drawing.
