# uv-nix

Nix-aware patching for uv virtual environments: which Nix libraries the
native binaries of Python packages need, where nixpkgs comes from, and the
Nix expressions, build environments and patch plans built from both.

## Layout

- `src/` — the library, verified with Verus. Each public function states
  in its contract what it returns; the laws of the library (idempotent
  patching, a cache read giving back what was stored, an explicit nixpkgs
  pin winning, a pin never being overwritten, …) are public proof
  functions next to the code they are about.
  - `nixpkgs` — choosing nixpkgs (pin, `use`, lock files), reading
    `flake.lock`/`devenv.lock`/flox locks, the pin written to
    `pyproject.toml`, and the `nix` expressions that import nixpkgs.
  - `soname` — what binaries link against, resolving sonames to nixpkgs
    attrs, per-binary patch plans and the patch manifest.
  - `patchelf` — rpath and install-name plans for ELF and Mach-O binaries.
  - `nixgen` — the overlay and `package.nix` generated from the manifest.
  - `build_env` — effective per-package configuration and the variables of
    source builds.
  - `nix_config`, `cache` — the resolved Nix configuration, cache keys.
  - `rust_overlay`, `version` — minimum Rust versions and the rust-overlay
    toolchain; semantic versions and requirements.
  - `python_install`, `ctypes_hook`, `nix_build` — Python requirements, the
    ctypes hook and the patched-Python derivation.
  - `config`, `cli` — `[tool.uv-nix]` and what the commands print.
  - `text`, `sorted` — strings and sorted maps with their specifications.
- `app/` — the process side: files, `nix`/`patchelf`/`otool` invocations,
  directory walks, the terminal. It hands the library plain values and
  carries out what the library plans. The curated data (default libraries,
  per-package registry, soname map, ctypes hook) is handed to
  `data::install` (in `app/`) at start-up.
- `tests/` — tests of the library on concrete values.
