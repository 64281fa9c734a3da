# otto

A terminal toy: a grid of gliders that move one cell per beat, collide, bounce off the
walls, and play a note for every bounce.

`src/` is the verified library:

- `util` — the row-by-row `Matrix`.
- `automaton` — headings, the per-cell `HeadingSet`, `State` and its step `next`, and the
  `Bounces` of a step (kept in `bitvec` bit arrays). The contract of `next` says, cell by
  cell, which glider lands where and which walls are hit; `lemma_gliders_never_multiply`
  proves that a step never creates gliders.
- `music_theory`, `midi` — pitches, scales and the note events sent to the sequencer.
- `datamodel` — the state shared by the two threads and the changes applied to it.
- `realtime` — clock dividers, the clock, and what the realtime loop does on each tick.
- `ui` — the layout engine (`components`), the mouse zones, the drawing commands queued on a
  `Canvas`, and the decisions of the terminal screen (`Ui`).

`app/` is the program around it: the two threads, the ALSA sequencer, and the terminal
(crossterm), which carries out the drawing commands and turns terminal events into the
library's `TermEvent`.
