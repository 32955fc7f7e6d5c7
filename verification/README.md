# kiter

An aeroelastic simulation engine for kites and the editor around it. Spars are
Cosserat rods, the canopy is woven cloth, bridle lines only pull, and the whole
is advanced with Extended Position-Based Dynamics.

## Layout

- `src/` is the library, verified with Verus: how a kite definition becomes
  particles and constraints, the substep loop and what each constraint does to
  the world, the graph colouring of the parallel solver, the scenario and editor
  documents, the editing tools, the simulation session and its history.
- `app/` is ordinary Rust around the library: floating-point arithmetic, the
  rigid control bar, files, the command line and the native viewer.
- `tests/` runs the library.

## Numbers

The library computes with no floating-point number. A `Scalar` is the bit pattern
of one, and the library copies, compares and orders such patterns. What takes
arithmetic is measured outside and handed in: which sites of a kite coincide, how
far a constraint is from being satisfied and where it wants its particles, what a
ray meets. Each function says what it does with whatever it is given.

## Where to start

- `world`, `particles`, `orientation`, `constraints`: the state of a simulation.
- `solver`, `kernels`, `collision`, `coloring`: one step of it. `state` gives a
  world's state as a mathematical value and what each act of a step makes of it;
  `sweeps` states what holds of solving all rods in turn.
- `geometry`, `weld`, `line_order`, `layout`, `frame`, `cloth`, `kite_builder`:
  from a definition to a world. `build_laws` and `doc_laws` state what holds of
  every kite.
- `doc`, `doc_scenario`, `doc_delete`, `tools`, `clicks`, `selection`, `editor`:
  the document and how it is edited. `delete_laws` states what a deletion leaves.
- `session`, `staleness`, `snapshot`, `windviz`: running a kite and looking at it.

Facts that relate several functions stand beside them as public proof functions.
