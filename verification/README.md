# tokimo-vm

Long-running, lightweight sandboxes for running scripts: a guest in a virtual machine, with file
systems that the host supplies. The core is written and verified in Verus.

- `src/` is the verified library: paths, configuration, kernel and QEMU command lines, the messages
  between guest and host and their frames, the FUSE operations of the guest agent, and the steps by
  which each backend starts and stops a sandbox.
- `app/` does what the library asks for: files, sockets, processes, FUSE, and the frameworks of the
  operating systems. It also holds the traits `TokimoVfs` and `Sandbox`.
- `tests/` runs the library on given values.

## How a mount reaches the guest

```
file system of the host  <->  rpc::server  <->  frames on a stream  <->  rpc::client  <->  agent::fuse
```

The stream is a Unix socket behind a virtio-serial port (Linux), one end of a socket pair behind a
console port (macOS), or the standard input and output of the agent (Windows). No port of the host is
opened, unless the configuration forwards one to the guest.

## How the library is used

Operations that alternate between decisions and outside work are step functions. `start` of a
backend takes what happened and returns what is needed next, until it returns how the start went; the
operations of the agent name a request and later turn its reply into the answer to the kernel.

## What is proved

Every function has a contract that says what it returns or changes. Beside them stand laws, as public
proof functions: that a call is transparent, that frames are read back, that numbers of paths are
stable and tell paths apart, that what a host directory grants to the guest lies under its root, that
scripts stand last on the command line, that every mount of a running sandbox is served at the socket
its port leads to, that no state of a sandbox comes back once it was left, and others.

What is trusted is named where it stands: calls into `uuid`, `libc` and `serde_json`, and a few
functions of the standard library.
