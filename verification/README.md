# accord_mobile

The rules of the Accord mobile API server, written in Verus and proved
against their contracts.

- `src/` is the verified library: request parameters and error answers of
  the endpoints, multipart upload parsing, the archive PDF writer, push
  notification data and messages, the push token registries, the
  calculate order templates, the production map save rules, the RPS scale
  driver address and messages, and the rezka/werka stock helpers.
  The request flows that alternate outside work with decisions (comments
  on notifications, customer issues, customer and supplier answers,
  dispatches, avatar and AI search uploads, saving a map with its order)
  are step functions from a state and an event to the next state and an
  action (`flows`, `issue_flows`, `reply_flows`, `upload_flows`,
  `map_flows`).
  Laws that span several calls are public proof functions named `law_*`.
- `tests/` runs the library on concrete values.
- `app/` is the server around it: listener setup, the handlers that
  drive the flows through the backend services, the SQLite and LMDB
  stores, the HTTP client of the scale driver, serialized forms of library
  types, and the rendering of floating-point quantities.
