# easy-qemu-core

The core of a small QEMU virtual-machine manager, written in Verus.

`src/` is the verified library: the VM model and its validation, the QEMU
and `qemu-img` command lines, accelerator selection, binary and firmware
lookup, the on-disk layout of the store, the running/status registry of the
manager, configuration loading, snapshot handling, SSH launch arguments and
the small text routines they share. Every function there carries a
contract, and the laws that tie several functions together are stated as
public proof functions next to the code they speak of.

`app/` is the unverified shell around it: file and process I/O, the QMP
client, the WebSocket-to-VNC proxy, serde copies of the library's types,
and the async `Manager` that drives the library's decisions.

`tests/` exercises the library on concrete values.
