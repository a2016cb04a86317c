# sdcpp

A controller for a local stable-diffusion.cpp server, verified with Verus.

- `src/` is the library: settings and the command line they make, the choice of a
  release, the installation and the launch as state machines, the search for the
  server on disk, the requests sent to it, and the models that are kept. Every
  function carries a contract, and the laws that hold across functions stand as proof
  functions at the end of each module.
- `app/` is what surrounds it: processes, files, downloads, and the commands that the
  user interface calls. It runs the state machines of the library.
- `tests/` runs the library on concrete values.
