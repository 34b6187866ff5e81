# onote_server

The backend of the ONote note-taking app: users keep notes, filed in folders, in a
MongoDB database, and the server answers the client's requests over HTTP.

- `src/` is the verified library. It holds the data model (`model`), the object ids
  of stored documents and their hexadecimal text (`object_id`), the commands that
  requests send to the database and what each does to the users and notes
  collections, where a one-document update changes only the first document that its
  filter reaches (`commands`),
  what each request decides (`handlers`), and the properties that hold across
  requests (`laws`).
- `app/` is the server around it: the axum routes, the MongoDB calls, and the
  serde forms of the documents and request bodies.
- `tests/` runs the library on concrete values.

The server reads `MONGODB_URI` and `PORT` from the environment (or a `.env` file).
