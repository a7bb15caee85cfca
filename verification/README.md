# mdns_responder

The decisions of a multicast DNS responder, verified with Verus, and a tokio program part
around them.

- `src/` decides. It says which records answer a packet and where the answers go
  (`fsm`, `message`, `services`), how a multicast socket of each address family is set up
  (`address_family`, `setup`), how datagrams are received and sent together with their
  interface (`udp_socket`, `read_buf`), and how failures are reported (`error`). `net` holds
  addresses and lists the interfaces of the machine. `laws` states what holds of the responder
  as a whole.
- `app/` performs what the library asks for: sockets, the reactor, the command channel, the
  lock around the services. How messages are encoded is up to the `MessageFormat` that the
  responder is given.
- `tests/` runs the library.

Each machine of the library works the same way: it is handed an event, and returns the action
to perform next; the outcome of the action is the next event.
