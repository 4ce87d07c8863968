# rustriff_lib

The verified core of RustRiff, a guitar-amplifier back end, written in Verus.

`src/` is the library, and Verus verifies all of it: each function against
its `requires`/`ensures` contract, where it has one (a constructor of a type
without fields has nothing to state):

- `device_service`: audio-driver selection, host choice, and device listing
  and lookup over descriptions of the host's devices;
- `audio_service`: the loopback start/stop state and buffer-size rules;
- `round_trip`: the round-trip latency measurement as a state machine, with
  the bound on impulses per measurement;
- `resample`: the resampling policy and the chunk buffer in front of the
  resampler;
- `file_service`, `file_loader`: IR file names, labels, the profile
  inventory, WAV header checks (through `hound`) and error messages;
- `cabinet`, `effects`, `persistence`, `text`, `sorting`: sizing rules,
  effect state, the config path, and the text and sorting helpers the rest
  builds on.

`app/` is ordinary Rust around the library: audio streams (`cpal`), the
floating-point signal processing (filters, convolution, FFT, resampling with
`rubato`), file and JSON I/O, and the measurement loops. It hands the library
plain values and acts on what comes back.

`tests/` runs the library on concrete inputs.
