# hyper_h2

What HTTP/2 clients and servers share when they send a message, verified with
Verus:

- `headers`: `strip_connection_headers` removes the headers that may not cross
  an HTTP/2 connection.
- `pipe`: `PipeToSendStream` decides how a body is fed into a flow-controlled
  stream. It takes the answer to its last action and returns the next one.
- `transfer`: what holds of whole transfers. Data is kept in order, capacity is
  requested only for data that is there to be sent, and the stream is ended
  once.
- `send_buf`: the buffer that is handed to a stream.
- `data_buf`, `header_map`: what is taken for granted of `bytes` and `http`.

`app/` runs `PipeToSendStream` as a future on the streams of `h2`.
