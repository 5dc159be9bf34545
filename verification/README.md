# cred

Named secrets in the operating system's credential vault, with the part
that decides verified by Verus.

- `src/` is the verified library: label and size checks (`validate`,
  `check_set`), the backend for platforms without a vault
  (`sys_unsupported`), and the decisions of the Windows and macOS backends
  (`sys_windows`, `sys_macos`): vault targets, what each OS status means, the
  Keychain call sequences as step functions, and the sorted listing of names
  (`order`). Laws about targets and listing are proof functions there.
- `app/` is the platform edge: the advapi32 and Security.framework calls,
  run against the library's decisions, and the conversion of the library's
  errors into `std::io::Error`.
