# virtio_snd

A virtio sound device for a virtual machine monitor, verified with Verus.

- `src/` is the device: the messages of the driver, the requests on the control queue, the
  transfers on the transmit queue, the life cycle of streams, and what the worker of the audio
  backend decides. `src/lib.rs` says which module holds what. The laws that hold of the device as
  a whole are in `src/laws.rs` and `src/audio_backends/laws.rs`.
- `app/` puts the device into its surroundings: files, rings, interrupts and the PipeWire server.
- `tests/` runs the device against real guest memory and real channels.

Guest memory is reached through `vm-memory`, and the worker of the backend through a
`crossbeam-channel`. What is trusted of these two crates is stated in `src/guest_memory.rs` and
`src/audio_backends/pipewire.rs`.
