# PeerWatch

Watch a video together: one peer offers a file, the others join with a ticket,
and the peers keep each other's playback in step over gossip.

- `src/` is the verified library. It holds tickets and messages with their byte
  formats, the rules of a node, the conversation with the player, and the steps
  of the workers that decode, queue and show a video.
- `app/` is the program around it: the network, the player's socket, FFmpeg, the
  sound device and the window. Each of its loops performs an action, reports
  what came of it to the library, and is told the next action.
- `tests/` runs the library.

Floating-point values cross the border of the library as they stand in memory:
positions as the bits of a `u64`, samples as four bytes.
