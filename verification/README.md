# vong

The verified core of Vọng, a desktop recorder that transcribes speech,
stores transcripts in SQLite with tone-insensitive Vietnamese search, and
can type short dictations into other applications.

`src/` is a Verus library: every function there carries a contract that
Verus proves. It holds the decision logic of the recorder:

- `vad`, `utterance`: voice-activity segmentation of 16 kHz audio into
  utterances, with pre-roll, hangover, partial snapshots and forced packing;
- `reconnect`, `stt`: exponential backoff, the Soniox configuration message,
  token-to-event mapping, PCM framing and the reconnect decisions;
- `voice_typing`: dictation states, the silence rule that ends a dictation,
  the text sanitizer for synthetic keystrokes;
- `key_probe`: the first-run wizard's live API-key test, from the
  provider chosen to the verdict on the provider's reply;
- `wizard`, `consent`, `i18n`, `dictionary`, `toast`, `summary`: first-run
  navigation and its progress file, consent and update-check files,
  translations, the custom vocabulary, notifications, summary bookkeeping;
- `storage`, `session_detail`, `ui`, `format`, `text`, `clock`, `audio`:
  full-text query construction, exports (text, SRT, Markdown), labels and
  the small text formats the application shows or persists.

Calls into outside crates (`unicode-normalization`, `semver`, `serde_json`,
`uuid`, the clock) go through a few trusted wrappers whose contracts say what they claim.

`app/` is a thin command-line program around the library: the SQLite
database (`rusqlite`), settings files, the voice detector's float score
(`earshot`), and the asynchronous loops that feed audio to the library.

`tests/` runs the library on concrete values.
