# webrender (frame building and tree printing)

A Verus library whose behaviour is stated in contracts and proved.

- `src/print_tree.rs`: `PrintTree`, a pretty printer for trees. Its state is
  modelled by `PrintTreeState`; each call is specified by a step function
  (`after_new_level`, `after_end_level`, `after_add_item`, `after_finish`), and
  the laws over sequences of calls (`apply_ops`) are proved there. The lines are
  collected and handed out by `take_output`.
- `src/frame_builder.rs`: the state used while a frame is built: surfaces and
  their render tasks, the dependencies between render tasks, the dirty region
  stack, the scratch stacks, the reset of the plane splitters (through the
  `plane-split` crate), and `FrameBuilder::build`, which turns the passes of a
  render task graph into a `Frame`.
- `src/render_pass.rs`: `build_render_pass`, which sorts the sub passes of a
  pass into color, alpha, texture cache and picture cache targets, and decides
  the color each picture cache tile is cleared to.
- `app/lib.rs`: a tree that writes its lines to standard output and finishes
  itself when dropped.
