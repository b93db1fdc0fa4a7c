# autodok

Restarts running docker containers with a new image, on request of a CI
pipeline (`POST /update_container`, `POST /update_image`, `GET /health`).

- `src/` is the verified library (Verus): image references (`parse`), registry
  names and registry credentials out of a docker `config.json`
  (`credentials`), the choice of containers an image update restarts and the
  request/answer types (`routes`), the decisions in restarting a container
  (`docker`), request authorisation (`auth`), the API key (`api_key`),
  errors and the HTTP answers they turn into (`error`), the listen address
  (`config`) and random strings (`random`).
- `app/` is the server around it: axum routes and middleware, the calls to the
  docker daemon through bollard, reading the environment and files.
- `tests/` runs the library on concrete values.
