# rayslash module host, verified core

The host loads one WebAssembly component that implements the rayslash module
API, answers the launcher's newline-delimited JSON requests, and serves the
component's host calls (HTTP, cache, clock) within fixed limits.

- `src/` is the library, verified with Verus: exact HTTPS origins, the checks of
  text, commands, delays, icons and actions in module results, cache keys and
  cache reads and writes, the HTTP requests a module may make, the request
  protocol and its error replies (with the JSON string escaping that they use
  and its reading back), the startup settings, and ahead-of-time compilation of
  a component within the input limit.
- `app/` is the program around it: argument parsing, the WebAssembly runtime,
  the component interface, file and network I/O (one HTTP agent that follows
  no redirect, and Wasmtime's code cache below the module cache directory), and
  JSON (de)serialisation of the wire types. Run under the name `rayslash-module-compiler` it precompiles
  a component instead.
- `tests/` runs the library on concrete values.
