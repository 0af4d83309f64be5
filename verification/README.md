# browsr

A local HTTP server that drives a browser extension over a websocket: HTTP
clients ask for tabs and windows, the server sends commands to the extension
and waits for its replies, and keeps what the extension reports (its hello,
its tabs and windows, its recent events).

- `src/` is the verified library: the JSON values exchanged and the reading
  of a message's text as one (`json`), text helpers (`text`), the settings
  (`config`), the messages to and from the extension and what the websocket
  does with each frame (`protocol`), the state machine of the connection and
  of the commands that wait for a reply (`state`), the endpoints' rules
  (`api`), and the declarations of the channel and map types the state holds
  (`channels`).
- `app/` is the program around it: the HTTP routes, the websocket loop, the
  environment, logging, and the serde forms of the library's values.
- `tests/` runs the library on concrete values.
