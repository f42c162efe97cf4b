# rs-term

A node-based terminal manager. Terminals and notes live as draggable cards on
infinite, tabbed canvases. Every terminal is a tmux session on a private
server, so it survives a restart; without tmux it is a plain shell.

`src/` is a library that holds the state and the rules, with contracts that
Verus proves:

| Module     | What it holds                                                      |
|------------|--------------------------------------------------------------------|
| `acs`      | the filter that turns line-drawing runs into Unicode               |
| `screen`   | the emulator, and how rows of cells are painted                    |
| `terminal` | a terminal: what is started, sent, scrolled, shown                 |
| `tmux`     | which tmux is used, and the course of the poller                   |
| `keys`     | what keys and text send                                            |
| `node`     | cards, their titles and colors, and what is kept of them           |
| `app`      | canvases and cards: adding, closing, raising, starting terminals   |
| `selection` | text selected with the mouse                                      |
| `interact` | what the mouse and the tabs do                                     |
| `layout`   | keeping the layout and taking it up again                          |
| `geometry` | coordinates, held by their bits                                    |
| `paths`, `text`, `color`, `selftest` | what the others need                     |

`app/` is the program around it: the window, the processes and the files.

## Use

| Input                   | Action                                       |
|-------------------------|----------------------------------------------|
| `⌘T` / `⌘N`             | new terminal / note                          |
| `⌘W`                    | close the selected card                      |
| `⌘S`                    | save the layout                              |
| scroll                  | zoom to the pointer                          |
| `⌥` + scroll            | pan, or scroll the terminal under the pointer |
| drag empty space        | pan                                          |
| drag over a terminal, `⌘C` | select text, copy it                      |
| right-click empty space | menu for new cards                           |
| double-click a title    | maximize the card, or put it back            |

The layout is kept in `~/.rs-term/layout.json`. Set `RS_TERM_AGENT` to the
command of the coding agent that agent cards run. `--selftest` checks the
terminal backend without a window.
