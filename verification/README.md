# bevy_make_human

Building MakeHuman characters in Bevy, with the file formats and the
bookkeeping verified by Verus.

- `src/` is the verified library:
  - `text`: lines, whitespace, words and unsigned integers as the asset
    files use them;
  - `loaders`: parsers for `.mhclo`, `.proxy`, `.mhmat`, `.target` and
    `.bvh` files, vertex groups, rig bone order and bone-end placement,
    and skinning-weight bookkeeping (numbers are kept as their text);
  - `skeleton`: bone names and parent links, with the walk up to the root;
  - `mesh_lookup`: which mesh vertex stands for which obj vertex, and
    copying values through that lookup;
  - `filter`: which option labels a typed filter keeps;
  - `name_map`, `components`, `assets`, `blend_shapes`: a small ordered
    name map, part tags, and the ARKit and tongue blend-shape sets.
- `app/` is the Bevy plugin: asset loaders that call the library's parsers
  and read the numbers, the floating-point geometry (fitting, skinning,
  bind poses) and the systems that build a character.
- `tests/` runs the library on concrete inputs.
