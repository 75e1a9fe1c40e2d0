# hci_adapter

The verified core of a Bluetooth host adapter on Linux. The library decides; what it
decides on, and what it asks for, are plain values.

- `adapter`: adapters, their kind and their states, read out of the kernel's description.
- `device`: the structures that the kernel exchanges about devices.
- `hci`: device addresses, received messages, command packets.
- `filter`: the packet filter of the adapter's socket.
- `reader`: the bytes that have arrived and wait for the rest of their message.
- `peripherals`: the devices that have been heard of.
- `events`: events, and the listeners that they are told to.
- `connected`: an adapter with an open socket: connecting, scanning, following messages.
- `buffer`: byte buffers of the `bytes` crate.
- `constants`: numbers of the host controller interface.

`app/` holds the sockets, threads and locks around it.
