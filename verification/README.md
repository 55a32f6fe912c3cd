# ats_bot

A Telegram bot that relays image frames received over UDP to subscribed
chats, with the decisions it makes proved in Verus.

- `src/` — the verified library: configuration values (`config`), decimal
  text of chat ids (`decimal`), bot commands (`command`), the frame wire
  form (`frame`), image recognition (`image`), forwarding decisions
  (`delivery`), the active-user maintenance state machine (`collector`), and
  the integer parts of the audio helpers (`spectral`, `angle`).
- `app/` — the program around it: configuration loading, PostgreSQL access,
  the UDP socket, the Telegram dispatcher, and the floating-point signal
  processing.
- `tests/` — tests of the library on concrete values.
