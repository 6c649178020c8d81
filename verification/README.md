# market-data-link

The rules of a market-data link between feed servers, feature services and trading
engines, written in Verus: message codecs, control protocol, subscription routing,
transport negotiation and the state machines of clients and servers.

## Layout

- `src/` is the verified library. It works on plain values: whoever owns the sockets, the
  clock and the Aeron media driver hands over what has happened and does what comes back.
  - `float64`, `wire`, `text`, `collections`: doubles as bit patterns, little-endian fields,
    text, and maps and sets that keep their order.
  - `mdp_messages`, `feature_messages`, `codec`: binary market data and features.
  - `protocol`, `client_messages`, `server_messages`: control messages.
  - `routes`, `server`, `client_router`: who is subscribed to what.
  - `aeron_publisher`, `aeron_hub`: shared Aeron streams and their publications.
  - `waiting`: who waits for a stream, told from the calls that were made.
  - `outbox`, `worker_link`, `publication`: the ends through which frames and commands go
    out. Each keeps a ghost log of what was handed over, so a contract can say that
    something was sent once, or not at all.
  - `frame_filter`: what a client keeps of a shared stream.
  - `ref_counts`, `link_client`, `client`, `client::polling`, `blocking`: the clients.
  - `negotiation`, `session`, `transport`: how a connection gets its data transport.
  - `connection`: how the server opens a session for a connection and lets it go.
- `app/` is ordinary Rust around it: sockets, JSON, threads and the Aeron media driver.
- `tests/` runs the library on concrete values.

Public proof functions whose names begin with `law_` state what holds of the library as a
whole, such as that decoding gives back what was encoded, that nothing is lost while a
client waits for a reply, that an unsubscription undoes a subscription, that a client waits
for its stream exactly until it is told, or that every session is disconnected once.

## What is trusted

Channels of `std::sync::mpsc` and of `tokio::sync::mpsc` are called through small functions
whose contracts are taken as given; each names the function that it calls. Noise ratios are
computed on doubles outside the library, which takes the comparison as an argument; so are
the parsing of socket addresses and the way in which a server's reply is shown in an error.
