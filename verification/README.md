# ret

Finds R installations on a machine — system-wide, Homebrew, conda and
Pixi environments, rig, Spack, Guix, environment modules, the macOS
framework, MacPorts, the Windows installers, Scoop and Chocolatey — and
reports them on the command line or to a JSON-RPC client.

## Layout

- `src/` is the library, verified with Verus. Each locator decides from
  plain values (paths, file contents, what exists on disk, a probed
  runtime) whether a runtime belongs to it and what installation it makes;
  the library also holds the merging of installations, the search plan, the
  runtime cache, the JSON-RPC framing and dispatch, the refresh
  coordination, the reporters and the text output.
  - `locators/` and `conda/`: one module per locator.
  - `identify`, `merge`, `find`, `refresh`: identifying executables,
    merging what several locators say, planning a search, and serving
    refresh requests.
  - `jsonrpc`: reading frames and deciding how each message is answered.
  - `install_cache`, `probes`: the cache of probed runtimes and the limits
    on running probes.
  - `display`, `cli`, `reporter`: what the command line prints and asks.
- `app/` is the program around it: argument parsing, the file system,
  running R and other tools, and the JSON-RPC loop on standard input and
  output. It gathers plain values, hands them to the library, and prints or
  sends what comes back.
- `tests/` exercises the library through its public interface.
