# narth_net

A network stack in user space, with contracts that Verus proves: Ethernet, ARP, IPv4, ICMP, UDP and
DHCP on the wire, the tables and queues behind an interface, and the state machines that drive it.

## Layout

- `src/` is the library. It holds no thread, no device and no clock: time comes in as an argument,
  frames come in and go out as byte buffers.
  - `protocols/`: the wire formats, each with what it means to read and to write it.
  - `runtime/`: address and route tables, buffer pools, the queues to and from the network, and
    `interface/`, which has the link layer (`l2_ethernet`), the internet layer (`l3_ipv4`), echo
    sessions and datagram sockets (`l4_managers`), and the worker that ties them together.
  - `services/`: the DHCP client.
  - `buffer`, `checksum`, `random`, `text`, `net`, `runtime/ring` and the statistics of echo sessions
    also hold what is used of other crates and of the standard library, each function with the
    contract that is relied on.
- `tests/` runs the library on concrete values.
- `app/` is the program around it: a tap device, threads, sockets that wait, and telemetry.

## Reading the contracts

A type that has a view (`@`) is described by it, and most contracts say how the view after a call
follows from the view before. What a call does is a spec function of its own wherever it takes more
than a line, such as `arp_request` for a look at the table of link layer addresses or
`outgoing_sent` for a datagram on its way out.

Random numbers are arguments of the exact functions (`send_identified`, `recv_identified`). The
functions that draw them say that there is a number with which the exact function does the same.

Some inputs cannot be handled, such as a datagram that announces more bytes than it has. Contracts
leave these out, and each has a test beside it (`can_recv`, `can_send`, `can_handle`,
`is_ipv4_complete`).
