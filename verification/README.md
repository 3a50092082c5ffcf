# Route guide

A route guide service whose decisions are verified with Verus.

- `src/` is the library: the feature table and the questions asked of it,
  rectangles, route summaries, the chat board, the spreading of requests over
  workers, and the text that a browser is shown. The laws that a module keeps
  stand in it as public proof functions.
- `app/` is the program around it: the gRPC services, the worker threads, the
  data file, the web pages, and distances, which are computed in floating point.
- `tests/` runs the library.

The program takes one argument:

- `server` runs the backend, which starts without any features,
- `route_programmer` fills a running backend from `data/route_guide_db.json`,
- `web_user` serves the backend to browsers.
