# obs_telegram_agent

The local companion agent of the OBS Telegram Send plugin: it listens on
loopback only, keeps the user's Telegram configuration in the system's
credential store, runs the official Bot API server in local mode and uploads
a finished recording only when the user asks for it.

- `src/` is the verified library (Verus): configuration checks, the install
  bearer and its file protocol, the upload queue's state machine, the
  credential-store format, the HTTP answers and bearer check, and the text and
  decisions of the Telegram client and of the local server's supervision.
- `app/` is the program around it: the HTTP server, file and network I/O,
  the credential store, the child process and the async upload flow. Each of
  its decisions is a call into the library.
- `tests/` runs the library on concrete values.
