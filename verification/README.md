# prototype_net

A transparent IPv6 NAT66 proxy. Clients resolve names through the proxy's name server, get
synthetic addresses under `fd00:abcd::/32`, and reach the real origins through an IPSec
tunnel. The data plane keeps no state per flow: the source address of every packet that
leaves for an origin carries the client, the domain and an integrity tag, and the reply is
routed by decoding it.

The rules of the proxy are a library verified with Verus. What remains is plumbing, with one
exception: the verified data plane allocates, so it is not itself the kernel object that the
daemon loads. `app/dataplane.rs` shows how the kernel's hooks, maps and packet writes go
around its decisions.

## Layout

- `src/address.rs`, `src/proxy_src.rs`: synthetic addresses, client VIPs and proxy-source
  addresses, with the laws that decoding undoes encoding and accepts nothing else.
- `src/crypto/`: the PRINCE cipher, the flow mixer and SipHash-2-4.
- `src/dataplane/`: what happens to a packet on each of the three hooks, as a function of its
  bytes and of what the kernel maps hold. `laws.rs` states what holds of the hooks together,
  first of all that a reply reaches the client whose packet it answers.
- `src/dns/`: what is answered to a query, step by step.
- `src/daemon/`: what is loaded and attached, when the database listener is restarted, and how
  the domain map follows the database.
- `src/contract.rs`: the constants that the code and the configuration files have to agree
  on.
- `src/inspect.rs`, `src/keys.rs`, `src/text.rs`, `src/numbers.rs`, `src/bytes.rs`: reading
  keys, texts and numbers.
- `app/`: the programs around the library.
- `tests/`: the library at work on concrete values.

## What is taken on trust

Three functions call other crates and are believed to do what their contracts say:
`crypto::siphash::siphash_2_4` (siphasher) and `dns::message::parse_request` and
`dns::message::encode_response` (hickory-proto).
