# aggligator

Unordered aggregation of network links: packets are distributed over several
links for their combined bandwidth, without ordering or acknowledgments.

`src/` is the library. Everything in it is verified with Verus: each public
function has a contract, and what holds over several calls is proved in public
proof functions.

- `unordered_cfg`, `unordered_msg`, `wire`, `msg_laws`, `cut_laws`:
  configuration and the message format.
- `load_balancer`, `link_state`, `unordered_task`, `task_laws`, `turns`: choice
  of a link, statistics of links and the aggregation itself.
- `session`, `session_tables`, `session_laws`, `hashing`, `crc`: sessions of the
  transparent proxy.
- `kcp`, `udp`: planning of KCP and UDP links.
- `agg_udp`: client and server side of the UDP proxy.
- `addr`, `num`, `time`, `text`, `vec_map`, `cli`, `join`: values and small tools
  that the others use.

What the library takes on trust is marked `external_body`: calls into
`byteorder`, `crc32fast`, `dashmap`, `tokio_kcp` and a few functions of the
standard library. Each such function says what it relies on.

Quantities that are measured as floating point numbers enter the library by
their rank only, and time enters it as an argument.

`app/` holds the command line tools, which do all input and output: sockets,
network interfaces, timers, random numbers and floating point weights.

`tests/` holds the tests of the library.
