# maarch64_android

The logic of a runtime that executes ARM64 Android packages and native libraries on Linux,
written in Verus.

- `src/dex`: `AndroidManifest.xml` in its binary form, the classes of `classes.dex`, and which
  such files can be handed to a reader.
- `src/archive`: what is taken out of a package: single files, all native libraries, or the
  one library that is run.
- `src/elf.rs`, `src/load_order.rs`: which libraries export `JNI_OnLoad`, where, and the order
  in which they are loaded.
- `src/jvm`: the Java VM that native code sees: its structures in guest memory, its registry
  of classes, methods and strings, and the JNI calls.
- `src/cpu_loop.rs`, `src/lifecycle.rs`, `src/native_activity.rs`, `src/launch.rs`: what is
  run, in which order and with which registers.
- `src/text.rs`, `src/bytes.rs`: strings and numbers.
- `app`: the program: arguments, files, guest memory and the processor.
- `tests`: tests of the library.

Guest memory and the processor belong to the program. The library says what it wants from
them and what is to be done to them, and is told the answers.
