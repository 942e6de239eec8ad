# audio_selector

The logic of an audio device switcher for PulseAudio/PipeWire desktops,
written in Verus and proved against its contracts.

- `src/text.rs`: text primitives (lines, words, trimming, search, replacement,
  decimal numbers) over `Seq<char>` models.
- `src/command.rs`: the external programs the selector asks its caller to run.
- `src/audio.rs`: `pactl` devices, their volume text, the JSON answer of
  `pactl list`, and the calls that switch devices and set volumes.
- `src/bluetooth.rs`: paired devices from `bluetoothctl`, and the connection
  sequence as a state machine.
- `src/config.rs`: the settings and the device cache.
- `src/i18n.rs`: interface texts and the choice of language.
- `src/utils.rs`: file locations, log entries and the log window's contents.
- `src/selector.rs`: what the window lists, scans merged with paired devices,
  restoring and pairing devices, installation files.
- `src/watcher.rs`: when the development watcher restarts the program.
- `src/laws.rs`: properties that span these functions.
- `app/`: the program around the library: running commands, files, JSON.
