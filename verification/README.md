# crab_examples

Small programs around a llama.cpp binding (`llama-crab`): text and chat
completion, a tool-calling demo, embeddings, vision chat, a server
launcher and a desktop download command.

- `src/` is the verified library. It holds the decisions these programs
  make: cutting a JSON tool call out of a model reply and running it
  (`tools`, on the plain JSON model of `json`), the chat history and the
  command-line chat loops (`chat`), the image prompt framing (`prompt`),
  the greedy-decode bookkeeping (`generation`), the download progress
  reports (`download`), the server launcher's command line and exit codes
  (`launcher`), and the text helpers they share (`text`).
- `app/` is the command-line front end: model loading and inference,
  network and file I/O, terminal loops, floating-point ranking.
- `tests/` runs the library on concrete values.
