# Tango signaling server

A matchmaking server for peer-to-peer sessions: clients that name the same session exchange
session descriptions and ICE candidates through it until they are connected directly.

`src/` is the server's logic, verified with Verus:

- `config`: the configuration that the environment describes, and which protocol versions the
  server matchmakes for.
- `text`: reading numbers, flags and protocol versions out of text.
- `pb`, `models`: packets, and what is kept of each client.
- `hub`: the open connections, and finding one in a session.
- `handlers`: what happens to a client and what is done with each of its messages.
  `handlers::laws` states what holds of the exchange as a whole, `handlers::life` what holds of a
  connection from its beginning to its end.
- `announcements`: announcing the server, at once and then every ten minutes.

`app/` is what surrounds it: the process environment, sockets, channels, HTTP and the encoding of
packets.
