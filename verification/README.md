# ndk_build

Plans the build of an Android application bundle and proves the plan's
properties with Verus.

- `src/` is the verified library. `apk` holds the configuration, the artifact
  paths and the resource, native library and alignment plans; `bundle` the
  signing, APK set, install, start and user id steps; `archive` the rules for
  which files go to `d8` and how workspace entries become archive entries;
  `manifest` the manifest elements and their defaults; `path`, `text`,
  `command`, `uid` and `error` the path, string, command line, package listing
  and error models they rest on. Each step hands back a `command::Chain`: the
  commands to run in order, and what the step goes on with once all of them
  have succeeded; a failed run ends the chain with `CmdFailed`.
- `app/` carries the plans out: the file system, zip archives, the manifest's
  XML and the tool runs, driving each chain run by run.
- `tests/` runs the library on concrete values, several against std's own
  path and number functions.
