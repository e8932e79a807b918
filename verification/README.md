# jq-ble

Adapters that let the [jacquard](https://github.com/hxrts/jacquard) mesh router work over Bluetooth
Low Energy, with the logic verified in [Verus](https://github.com/verus-lang/verus).

Unicast payloads take a point-to-point path: L2CAP where it is open, and GATT writes otherwise.
Notifications serve explicit multicast only. Advertising serves discovery only.

## Layout

- `src/` is the verified library. It decides what each event of the radio, the router and the
  application changes and what is to be done about it, and talks to no radio, clock or thread.
  - Models: `identity`, `ordered_map`, `endpoint`, `link`, `node_preset`, `topology`, `authoring`,
    `errors`, and `world`, which takes links and meshes to the router's own types and back.
  - Link profile: `gatt`, `l2cap`, `cast`, `session`, `peers`, `startup`, `notify`, `config`, and
    `runtime`, which ties them together.
  - Client: `bridge`, `effects`, `delivery`, `multicast`, `host`, `projector`, `routing`, `client`,
    `send`, `client_loop`, `framing`.
  - Service: `invite`, `hex_text`, `service`.
- `app/` runs the library: the platform's BLE stack (`blew`), the router, the queues between them,
  the async runtime, and the service that an application talks to.
- `tests/` runs the library from outside.

## What is proved

Every public function states what it returns and changes. Public proof functions whose names begin
with `law_` state what holds across functions: that what is written is read back, that invites and
frames survive a round trip, that a lost L2CAP channel falls back to GATT, that payloads come from
proven nodes only, that link events which were refused leave later in their order, that dropped
events are reported once, that a link which is heard of is shown, that relaying is bounded, and so
on.

Calls into other crates go through small wrappers. Each says in its comment what is believed of the
call; nothing else is taken on trust. `cast_support` and `fanout_support` hold the calls that shape
delivery support and admit groups, `peers` the peer directory and the claims on devices,
`node_preset` the description of nodes, `world` the router's own types, `host` the host's projector,
`hex_text` the hexadecimal text, `client` the reading of route tokens, and `gatt` the reading of
UTF-8.
