# grazel

The gryth node: a glade application that composes glade suppliers, owns app
storage, and serves gryth-ui and the session-placement bootstrap. It spawns the
glade node and the `glade-gwz` supplier as child processes and attaches over the
wire.

    grazel --mode local|peer|both [--name N] [--data DIR] [--http PORT] \
           [--node-port PORT] [--ui DIR] [--app FILE.glade] [--node-bin PATH] \
           [--gwz-supplier-bin PATH] [--no-suppliers]

- `src/` is the library, verified with Verus. It decides and computes: the
  command line, the storage layout, the arguments of the children, the
  `/bootstrap.json` body, the answers to requests, and what follows from what
  happens to the children. The modules named `*_laws` state what holds across
  functions.
- `app/` is the program around it: processes, signals, files and sockets.
- `tests/` runs the library.

Paths are held as text, with `/` as the separator, and compared by what they name.

What the proofs rest on without proving it: `String::push` and the `Debug` form
of a text (`src/text.rs`), and the constructors of `tiny_http`'s headers and
responses (`src/http.rs`).
