# pov_display

Verified core of a persistence-of-vision display: a 16×16 LED matrix that
spins about its vertical axis and shows a different frame at each of 1024
angle steps.

The library (`src/`, proved with Verus) holds:

- `frame` — frames and their 32-byte little-endian layout;
- `animation` — sparse keyframe pages and the reconstruction of every
  recorded frame from them;
- `wire` — the postcard wire format of animations and the bake functions;
- `pool` — the fixed-capacity keyframe store read by the display loop;
- `display`, `scan` — choosing and writing the frame for an angle, and the
  column-scan encoding for the shift-register driver;
- `encoder` — the AS5047P command and reply words and the wrap-aware step
  counter;
- `fsm` — the display's life cycle;
- `web` — the JSON API;
- `pipeline`, `renderer` — lookup tables, image downsampling, renderer
  interface.

`app/` is the unverified rest: the command-line baker (glTF rendering in
floating point), the PID and speed loop, the encoder's SPI reads and unit
conversions, the LED geometry, the serde copies of the animation types, and
the firmware glue.
