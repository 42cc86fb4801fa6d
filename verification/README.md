# comphwde

The logic of a Wayland compositor, verified with Verus: windows and workspaces,
master/stack tiling, key bindings, pointer grabs, interactive resizing, the control
sockets of the shell, foreign toplevel and workspace protocols, outputs and displays,
GPUs, power, and the configuration file.

* `src/` is the library. Everything in it is stated in contracts over mathematical
  models (`Desk` and `Desktop` are the models of the two window managers) and proved.
  Functions named `law_..` state what holds across operations, such as that no two
  tiled windows overlap, that window ids stay unique, or that a locked session lets
  no click through to a window. What the `hk` configuration format's own crate does
  is described in `hk.rs`, next to each call.
* `app/` is the program around it: Wayland and window system through `smithay`, files,
  sockets and JSON, fonts and pictures, and whatever needs floating point.
* `tests/` runs the library on concrete values.
