# pangpang

A connection manager for SSH sessions and the tunnels that run over them.

`src/` is the verified library:

- `profile` — connection profiles and their identifiers (`ssh://user@host:port`);
- `storage` — the `Storage` interface over profiles keyed by identifier, and the
  in-memory `MockStorage`;
- `session` — planning a session: following the transport references of a
  profile through its jump hosts, and the order the connections are made in;
- `manager` — the plans for sessions, transports and tunnel listeners;
- `ssh` — the read buffer of an SSH channel stream, the server-key, login and
  port-forwarding decisions, and the pseudo-terminal parameters;
- `tunnel` — the HTTP proxy's choices (tunnel or proxy, destination of a URI)
  and the SOCKS5 session, whose replies are encoded by `socks5_proto`;
- `terminal` — the window size of the local pseudo-terminal.

`app/` runs the I/O the library decides on, with tokio, russh, hyper,
socks5-proto and alacritty_terminal.
