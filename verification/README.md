# speakoflow

The decision-making core of a desktop dictation and voice-assistant
application, written in Verus. The functions in `src/` carry contracts that
the verifier proves, except the small trusted wrappers described below, whose
contracts are believed; the laws the application relies on are stated as
proof functions beside the code they are about.

## Layout

- `src/clock.rs`: reading the local clock, and the forms its date and time
  texts take.
- `src/text.rs`, `src/edit.rs`: text primitives (trimming, splitting,
  searching, case) and edit distance, with their specifications.
- `src/autolearn/`: learning vocabulary from the corrections a user makes to
  a pasted transcript: aligning the transcript with the edited field
  (`detect`), the watch on the field (`watch`), and the bounded learned-word
  list (`learner`).
- `src/flow.rs`: the spoken "Hey Flow" command path: recognising the
  activation phrase, choosing the model, and the screen-tool rounds.
- `src/audio/`: rule-based text replacements, the recognition of audio
  device errors and loopback sources, the choice of an input configuration,
  and cutting samples into frames.
- `src/assistant/`: the assistant: screen-access authorization and the
  capture tokens it issues (`screen`, `session`), the conversation and its
  rolling summary (`history`), the text a turn is built from
  (`conversation`), and the decisions of a turn (`turn`).
- `src/commands/`: validation and status shapes behind the application's
  commands.
- `tests/`: executable tests of the library.
- `app/`: the unverified shell: command-line parsing, JSON shapes,
  tool definitions, the reader thread of the correction watcher, and audio
  arithmetic on floating-point samples.

Calls into outside crates (`strsim`, `regex`, `chrono`) and into parts of the
standard library that the verifier has no specification for go through small
wrappers marked `#[verifier::external_body]`. Their `requires` and `ensures`
clauses are trusted rather than proved, and a doc comment above each names the
outside function it calls and says what its contract claims.
