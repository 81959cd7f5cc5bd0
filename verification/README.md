# tui_lipan

Verified building blocks of a terminal UI toolkit, written in Verus. The
library computes what the widgets show and how they behave; every function in
`src/` carries a contract that Verus proves.

What is in `src/`:

- **File tree** (`file_tree*`, `projection`, `tree_projection`, `tree_row`,
  `changed_tree`, `provided_changes`, `git`, `explorer`, `file_icon`,
  `lexpath`, `home`): properties and builders, the rows a tree projects,
  changed-only trees, git status parsing and roll-up, provided change sets,
  the explorer's fuzzy filter, path arithmetic, and the component's state
  machine (`file_tree_component`): each message and each change of
  properties gives the next state and the work for the host to do.
- **Flowcharts** (`flowchart*`): edge classification, layering, placement,
  subgraph boxes, edge routing pieces and the normalised output.
- **Gantt charts** (`gantt*`): dates and day numbers, dependency resolution
  with cycle reports, and the rows a chart draws with their size.
- **Layout helpers** (`flow`, `grid`, `frame`, `heatmap`, `graph*`, `wrap`,
  `width`, `text`, `style`, `element`, `event`).

Text widths come from the `unicode-width` crate and fuzzy matching from
`nucleo-matcher`; the few calls into them and into `std::path` are trusted
wrappers whose contracts name what the call returns.

`app/` holds what cannot be verified: reading directories and git output,
running the file tree's host loop, and the floating-point parts of heatmaps
and flowchart ordering. `tests/` exercises the library on concrete values.
