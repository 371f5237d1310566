# research_pipeline

A terminal front end for a research-paper writing pipeline: choose or create
a project, pick its input files, watch the pipeline's stages and papers, look
at the generated figures and output files.

The library (`src/`) holds the logic and is verified with Verus:

- `app`, `pipeline`, `json`: the project configuration and its manifest, the
  list of recent projects, and the pipeline status file read into plain
  values.
- `screen_select`, `screen_input`, `screen_output`, `screen_figures`,
  `pipeline`, `keys`: the state of each screen, how every key changes it,
  and which file system request a key asks for.
- `draw`, `style`, `pipeline_view`, `stage_view` and the `render` functions
  of the screens: what each screen draws, as a list of boxes, runs of text
  and progress bars (`Draw`). Each render function states the exact list it
  returns, through the view `marks` of a drawing, and exactly when it cannot
  draw (a text cut inside a character, a column past `u16::MAX`).
- `text`, `paths`, `order`: strings, paths and a stable sort with their
  specifications.

`app/main.rs` is the program around it: the terminal, the event loop, the
file system, JSON parsing, and painting the drawings onto a terminal buffer.
