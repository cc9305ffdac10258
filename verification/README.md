# feishu_bot

The decision core of a Feishu (Lark) bot that binds chat groups to coding
workspaces, written in Verus and proved against its contracts.

- `src/` is the verified library: chat commands and card actions, routing of
  inbound chat messages, duplicate suppression, group announcements, bot
  credential handling with secrets kept by reference, the one-active-workspace
  rule per chat group, target discovery, the long-connection frame protocol
  (chunk reassembly, control frames, replies, the connection state machine),
  runtime bookkeeping, the event-stream hook decisions, and the HTTP API's
  request and error mapping.
- `app/` is the unverified I/O around it: the open-platform HTTP client, the
  websocket loop that feeds the connection state machine, the secret file,
  the runtime tasks, and the JSON/protobuf wire formats.
- `tests/` runs the library on concrete cases.
