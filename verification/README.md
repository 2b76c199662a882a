# libpnet_pyo3

Raw IPv4 probing as a verified library: TCP SYN probes, UDP datagrams, ICMP
echo and ARP requests built byte by byte (checksums from pnet), the replies read
back out of received packets, dotted-decimal and MAC address text, TCP flag
strings, and the choice of network interface.

- `src/` — the library, verified with Verus. `laws.rs` holds the properties that
  relate builders and readers; the other modules carry their contracts.
- `tests/` — tests of the library on concrete packets, several checked against
  packets that pnet itself builds.
- `app/` — the Python extension module (pyo3): raw sockets, datalink channels,
  route lookup, timeouts, and the Python classes.
