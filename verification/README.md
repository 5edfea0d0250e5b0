# camera_opencv

The verified core of an OpenCV camera plugin for a Bevy viewer.

- `src/` is the library, verified with Verus:
  - `frame` — camera frames (`ndarray` arrays of bytes) and the pixel operations on them;
  - `camera` — the camera objects, their capture state, and the frames they publish;
  - `config` — reading a camera's JSON configuration;
  - `worker` — the decisions of the capture worker thread;
  - `drivers` — which configured drivers are created, by which plugin;
  - `image` — the texture size and bytes that the viewer shows;
  - `core_trait`, `error` — the naming shared by plugin objects, and capture errors.
- `app/` is the program around it: plugin loading, the OpenCV device, the worker
  thread and its channel, and the viewer.
- `tests/` runs the library on concrete values.
