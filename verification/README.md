# rmux

A tmux-style terminal multiplexer whose logic is verified with
[Verus](https://github.com/verus-lang/verus). A server in the background owns a
session, its windows and its panes; clients are shown it over a Unix socket.

## Layout

- `src/` is the library: executable Rust with contracts that Verus proves.
  - `geometry`, `layout`, `window`, `session`, `mux`: from rectangles to the whole
    multiplexer. `state` is the multiplexer as a mathematical value and what each
    request makes of it, `soundness` what every request keeps.
  - `keys`, `paste`, `width`, `text`: keys, pastes, columns and characters.
  - `view`, `render`, `clipboard`: what a client is shown of a session.
  - `protocol`, `ipc`, `server`, `client`: requests, responses, and what either
    side does about them.
  - `cli`, `target`, `options`, `send_keys`, `source`, `format`: the command line.
  - `layout_laws`, `window_laws`, `session_laws`, `mux_laws`: what holds over
    several steps. Other laws stand beside what they are about; all of them are
    named `law_...`.
- `app/` is the program around the library: sockets, the screen, and the
  terminals of the panes, which [Termy](https://github.com/lassejlv/termy) runs.
- `tests/` runs the library on concrete values.

## What is taken on trust

Five calls are believed to do what their contracts say: `String::push` and the
`Debug` form of a text (`src/text.rs`), the widths that `unicode-width` counts
(`src/width.rs`), and the encoding of `base64` (`src/clipboard.rs`). A terminal is
started, written to and read in `app/`; what the library does about it is proved
for every outcome.

## Keys

After the prefix key, `Ctrl-b` unless it is set to another:

| Key | |
| --- | --- |
| `\|`, `%` and `-`, `"` | split side by side, one above the other |
| `c`, `1` to `9`, `l` | new window, select a window, the last one |
| `n`, `p`, right, left | next and previous pane |
| `Space` | toggle between the even layouts |
| `H` `J` `K` `L`, `{` `}` | resize, swap |
| `x`, `d`, `q` | kill the pane, detach, quit |

Without it: `Ctrl-d` and `Ctrl-Shift-d` split, `Ctrl-t` makes a window, `Ctrl-w`
closes the pane unless it is the last, and `Ctrl` or `Alt` with a digit selects a
window.
