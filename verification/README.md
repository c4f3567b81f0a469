# ferriscraft

The rules of FerrisCraft, a small voxel game with a client and a dedicated
server, as a library whose functions carry contracts proved with Verus.

- `src/` is the library. Blocks and their orientation (`block`), chunk
  coordinates (`coords`), terrain columns (`terrain`), chunks and their
  neighbours (`chunk`), chunk generation with trees and saved changes
  (`generate`), meshing (`mesher`, which fans out over the cells of a chunk
  with rayon), the changes players make to a world (`saved`), the client's
  chunks and their streaming (`store`, `world`), the server's decisions
  (`server`), message channels (`packet`), text typed by players and
  operators (`text`), the hotbar (`hotbar`) and the game keys (`controls`).
- `app/` is the program around it: a terminal server over renet, the save
  file, the message encoding, and the client's floating-point work (terrain
  noise, rays, collision boxes, mesh attributes).
- `tests/` runs the library on concrete worlds.
