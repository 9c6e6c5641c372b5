# RemoteWay

A remote desktop for Wayland over SSH. The server captures an output or a
window, compresses what changed, and streams it through the pipes of the SSH
session that started it; input events come back the same way.

The library under `src/` is written in [Verus](https://github.com/verus-lang/verus):
every function states what it does, and the statement is proved.

- `proto`: the wire protocol. Every message is a 16-byte header and a payload;
  each structure has its bytes, and decoding gives back what was encoded.
- `transport`: many streams over one pipe. Splitting into chunks, reassembly,
  priorities and flow control, without the I/O.
- `server`: capture decisions, damage, downscaling, frame packaging, and the
  course of a session as a state machine.
- `interpolate`: frames between the captured ones. The CPU blend, and the GPU
  backends as resources and commands.
- `vulkan`: which device, queues, memory and commands the GPU work asks for.

`app/` is the program around it: command line, pipes, threads, Vulkan, wgpu and
the SDKs. It performs what the library decides.

What the library takes on trust is small and marked: the buffers of `bytes`,
the flag constants of `ash`, `String::push` and `str::to_lowercase`.

Floating-point factors and latencies are carried as IEEE 754 bits.
