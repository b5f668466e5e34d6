# usbmagic

A library and a command-line tool for working with **magic USB ports** -
programmable USB test instruments that can observe or shape USB traffic. The first
supported device is the [Cynthion](https://greatscottgadgets.com/cynthion/) from
Great Scott Gadgets running the *USB Analyzer* gateware (USB ID `1d50:615b`), which
passively captures Low/Full/High-speed USB 2.0 traffic flowing through its TARGET
ports.

The library is written in [Verus](https://github.com/verus-lang/verus): every
function carries a contract that states what it does, and the laws that hold of
several functions together are public proof functions beside them.

## Layout

- `src/` - the library. It performs no I/O: it decides what to ask of a device,
  makes sense of what comes back, and builds what is written to disk.
  - `capture`, `pcap` - captured items and their Wireshark-readable form
  - `device`, `backend`, `usb` - recognizing devices, the analyzer's protocol
  - `pd`, `pcapng` - USB Power Delivery messages, links, traces and trace files
  - `host`, `mock` - the forensics-first USB host, and a virtual bus to test against
  - `power` - per-port power monitoring
  - `flash` - the board's modes and the Apollo debugger's protocol
  - `cli` - what the commands decide and print
- `app/` - the program around it: argument handling, USB transfers, files, the clock.
- `tests/` - scenarios on concrete values.

## Commands

```sh
usbmagic list                                   # connected devices
usbmagic info                                   # details and live state
usbmagic capture -s auto -t 5 -o capture.pcap   # capture to a pcap file
usbmagic pd-dump trace.pcapng --hex             # decode a PD trace
```

The analyzer is *passive*: packets appear only when there is USB traffic between a
host and a device connected across the TARGET-A and TARGET-C ports.

## Attribution and license

Licensed under the BSD 3-Clause License. The analyzer's control protocol, its record
stream and its clock conversion follow Great Scott Gadgets' Packetry, and the Apollo
protocol their Apollo (both BSD-3-Clause, Copyright (c) Great Scott Gadgets).
