# slint-clash

The verified logic of a desktop application that drives the Mihomo proxy core.

- `src/` is the library. Every function in it has a contract that Verus proves;
  the few calls into other crates and the standard library stand behind small
  wrappers whose doc comments say what is taken on trust.
- `app/` is the program around it: the window, the network, the disk and the
  core's process. It carries out what the library decides.
- `tests/` runs the library on concrete values.

| module         | what it holds                                               |
|----------------|-------------------------------------------------------------|
| `api`          | requests to the core's control interface                    |
| `config`       | the settings, the core's program and files, subscriptions   |
| `controller`   | the state of the application and what each action does      |
| `startup`      | a start of the core, until it answers or is given up        |
| `monitor`      | watching the running core                                   |
| `settings`     | editing the settings                                        |
| `sidecar`      | the core as a process                                       |
| `subscription` | checking, downloading and installing profiles               |
| `files`        | plans of changes to files, with what undoes them            |
| `profiles`     | the list of profiles                                        |
| `traffic`      | samples from the core's traffic stream                      |
| `rate`         | transfer rates as text                                      |
| `path`         | file names, paths and places                                |
| `sorting`, `text`, `number`, `ui` | what the others build on                 |
