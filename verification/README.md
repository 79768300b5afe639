# yui

A terminal user-interface toolkit whose logic is verified with Verus.

`src/` is the library:

- `bounds`, `depth`: rectangular regions, their arithmetic, and the hold
  that stores a layout's regions by index and by yard id.
- `nexus`, `scroll`: the scrolling model of a list of items, which items a
  region shows, and the list yard.
- `focus`: interactive regions, what each does with a key (as data: the
  message it sends, or how it answers an arrow key), and how the keyboard
  focus travels between them.
- `layout`, `yards`, `combine`, `widgets`, `tabbar`, `textfield`, `table`:
  yards, how each claims its regions in a layout, and what each shows.
- `paint`: the cells a laid-out yard paints, row by row; every yard states,
  as `Yard::painted`, what it draws into a cell.
- `button`, `palette`, `screen`, `link`: button and pressable models, the
  numbering of colour pairs, one painted cell, and message handles.

Every yard states, as `Yard::laid_out`, what its layout does to the layout
context: which regions it pushes, where each child yard is laid out, which
foci it offers and where it ends.

`app/` holds what talks to the terminal and to threads: the curses screen,
the terminal colours, release timers, carrying out what focused regions
ask for, and yard publishing channels.
