# duja-platform

OS integration for the Duja tray: display and power events, launch at login, the
geometry a flyout is placed by, and the local control socket.

- `src/` is the library, verified with Verus. It holds every decision: what a
  kernel datagram or a settings blob says, where a window fits, when a socket may
  be unlinked, what a step's outcome leads to. It touches no file, socket, thread
  or clock: a caller hands over what the OS said and does what comes back.
- `app/` makes the OS calls around it, one backend per platform, and holds the
  floating-point arithmetic of scale factors and Cocoa coordinates.
- `tests/` runs the library on concrete values.

Public proof functions whose names begin with `law_` state what holds of several
functions together. What is taken on trust is small and marked `external_body` or
`assume_specification`: `String::push`, `char::from_u32`, the machine's byte order
and the validity of UTF-8 from `std`, and the error numbers of `libc`.
