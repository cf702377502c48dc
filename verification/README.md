# memeblink

MemeBlink shows memes on a transparent, always-on-top overlay window. A
dashboard sends them to the overlay over a Unix socket, and relays them
through a Matrix room, where a message such as `hello -d 5000 -c #ff0000
-i https://example.org/cat.gif` asks for a meme with its text, duration,
colour and image.

## Layout

- `src/` is the library, verified with Verus:
  - `parser`, `text`: reading options and text out of a chat message;
  - `matrix`: room IDs, the payloads of received memes, and the message
    that sends one;
  - `decoder`, `texture`, `time`: decoding images into textures, and which
    frame of an animation is shown when;
  - `overlay`: the meme on screen and when it expires;
  - `placement`: where the overlay window goes, and the `hyprctl` calls
    that put it there;
  - `render`, `ipc`: the drawing and socket framing decisions;
  - `models`, `events`, `error`, `constants`: shared types and values.
- `tests/` runs the library on concrete values.
- `app/` is the program around it: the winit/wgpu overlay, the socket
  server, and the Tauri dashboard with its Matrix session.
