# nexus_launcher

A command-line Minecraft launcher whose decisions are verified with Verus.

`src/` is the verified library:

- `text`, `paths` — character-level text helpers and Unix path joining,
  components and prefix tests with the meaning `std::path` gives them.
- `layout` — where the launcher keeps its files under `~/.minecraft`, the
  proof that every version plays in its own directory under `versions/`, and
  the proof that every place it names lies inside `~/.minecraft`.
- `java` — reading `java -version` output, keeping a list of distinct Java
  installations, and planning an Adoptium runtime download.
- `config` — the settings that record which Java executable serves which
  major version.
- `download` — SHA-1 checks that decide whether a file is fetched or kept.
- `version`, `loader` — game versions, library and asset plans, the asset
  queue that never runs more than 32 downloads at once, and the Fabric loader.
- `auth` — the sealed refresh-token vault and the network-free parts of the
  Microsoft/Xbox/Minecraft sign-in.
- `launch` — the game's command line and the step function that decides each
  move of a launch, settling the Java major version the version's details ask
  for.

`app/` runs the program: argument parsing, the network, the file system, and
the game process. `tests/` exercises the library on concrete values.
