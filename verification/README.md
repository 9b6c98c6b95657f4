# proxifyre

Sends the TCP and UDP traffic of chosen Windows programs through SOCKS5 servers, over IPv4 and
IPv6. The packets of a program are turned round to a local proxy, which learns from the router
where they were going and connects there through the server.

- `src/` is the library, verified with Verus: packets and their rewriting, the flow tables,
  the SOCKS5 negotiation and datagrams, the UDP associations, the packet loop, the process lookup,
  the filters, the log and the status line.
- `app/` is the program around it: the packet driver, the sockets, the clock and the terminal.
- `tests/` runs the library on concrete packets, replies and tables.

The library's functions state what they return; the `law_` proof functions state what holds
between them. What the library takes from smoltcp and from the standard library unproved stands
in the functions marked `external_body`, each with the claim that is made of it.

## Use

Put the settings in `config.toml`, install the ndisapi driver, and run the program as an
administrator:

```toml
[[proxies]]
appNames = ["firefox"]
endpoint = "127.0.0.1:1080"
```
