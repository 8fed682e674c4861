# achvgames-com

A catalogue of Steam games and their achievements.

- `src/` is the library, verified with Verus: the data model, the Web API requests and
  how their replies are read, the opaque page cursors (base64 of a decimal number), the
  GraphQL connection built from a listing, and the worker's decisions (visit order of the
  app ids after the last stored one, which failures stop a pass, how stored games are
  counted).
- `app/` is the program around it: HTTP calls with surf, the Postgres store with sqlx,
  the GraphQL resolvers with async-graphql, and the worker's loop.
- `tests/` runs the library on concrete values.
