# soksak-sidecar-speech-sherpa

Speech service sidecar: sherpa-onnx (VITS, Kokoro) and Supertonic text-to-speech behind a
stdio JSON-lines contract. One request line gets one reply line; `op:"tts"` with
`stream:true` gets chunk lines (`pcmBase64`, s16le mono) as synthesis progresses, then a
`done` line; `op:"info"` reports the contract, engine, model, sample rate and speakers.

Layout:

- `src/` — the verified library: the protocol (`protocol`), PCM and WAV encoding (`wav`),
  base64 (`base64`), command-line parsing (`args`), the choice of model and voice style
  files (`files`), the sherpa configuration (`engine`) and the backends' reported values
  (`backend`).
- `app/` — the program: standard I/O, the model directory, the sherpa-onnx FFI, the calls
  into the project's Supertonic module (`supertonic`, which is not part of this tree), the
  float-to-16-bit sample conversion and JSON.
- `tests/` — tests of the library.
