# vialo

The verified core of vialo, a platform for student dorms: residents manage
their devices, network credentials and bookings; staff manage people, groups,
boards and the network.

`src/` is a Verus library. Its modules:

- `dhcp`: the DHCP server's address pool (`lease`, with the laws it keeps in
  `lease_laws`), its message handling and lease timers (`message`), the VLAN
  hint of option 82 (`circuit`) and its configuration (`config`).
- `http`: request bodies (`json`), authentication decisions (`auth`), error
  answers (`errors`), translated texts (`i18n`) and shared identifiers and
  query parameters (`models`).
- `permissions`, `posts`, `people`, `network`: the access rules and plans of
  the HTTP handlers for boards and posts, people and groups, networks,
  credentials, devices, MAC addresses, management-system connectors and the
  guards of the network routes.
- `printer`, `ppsk`: the rules of the printer and pre-shared-key subsystems.
- `rate_limit`, `ws`, `startup`, `text`: rate limiting, WebSocket
  subscriptions, start-up decisions and verified text helpers.

`app/` is the server around it: configuration files, the database, sockets
and the HTTP routes. `tests/` exercises the library.
