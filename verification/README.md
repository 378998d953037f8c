# webwire

Webwire is a contract-first RPC system. This crate holds its protocol
logic, verified with Verus:

- `rpc::message`: the text format of the protocol's frames, with a parser
  and serialisers whose contracts state the frame grammar exactly, and
  laws on what reads back from what is written.
- `rpc::engine`: what the RPC engine does with each frame, what it answers
  to a request, what a waiting caller receives, and the table that gives
  out message ids and finds the caller a response belongs to.
- `server::session`: the `Authorization` header, parsed and written.
- `server::hyper`: which upgrade requests are refused, and how.
- `amqp`, `redis`, `transport::websocket`: routing keys, channel names and
  the decisions of the message loops.

`app/` holds the asynchronous, networked parts around it: the engine's
tasks, the WebSocket transport, the server and client, and the AMQP and
redis bindings. They make the I/O and hand plain values to the library.
