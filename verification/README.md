# demucs

The verified core of an audio-workstation extension that separates a track into
stems with HTDemucs, and the ordinary Rust around it.

`src/` is the library, verified with Verus:

- `reflect`, `stft`, `spectrogram`, `chunks`: mirrored padding, framing, the
  spectrogram of a stereo signal, and overlapping chunks. They do not look into
  samples, so they are generic in them; the Fourier transform is an argument.
- `tensor`, `cac`: programs of tensor operations, what they do to shapes and
  cells, and the two programs between audio and the model's packed spectrogram.
- `text`, `wav`, `json`, `panel`: text, WAV files, and the JSON that the panel
  and the commands exchange.
- `host`, `flows`, `extension`, `flow_laws`: what the extension asks of its host,
  where it stands in a piece of work, what every reply leads to, and what holds
  of its work as a whole.
- `wire`: the tensor transport.

Numbers with a fraction are handled as their bits throughout.

`app/` connects the library with a host: the host's interfaces as traits, the
tensor backend, the programs carried out on tensors, and the loop that performs
the extension's turns.

What is believed without proof is marked `external_body` or declared as an
outside type: the calls into `hound`, `serde_json` and `rmp_serde`. The comment
above each says what is claimed of it.
