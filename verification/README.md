# rest_to_a2a

A bridge from a REST API to an agent that speaks A2A 1.0. A request becomes a `SendMessage`, the
agent's reply becomes the REST response, and a conversation over several requests continues one
task. The decisions are a library verified with Verus; the gateway policy around it is ordinary Rust.

## The library, `src/`

- `policy`: the two halves of the bridge. From what the selectors of a request yield: refuse it, look
  its conversation up, or forward it. From a reply: what to record, and what becomes of its body.
- `config`, `config_map`: the operator's configuration, and what the filters make of it.
- `continuation`: which task a request continues, by mode, and what is recorded of the reply.
- `cache`, `cache_laws`: the conversation cache. A change to the store is a sequence of steps, each of
  which asks for one request. Some laws hold whatever the store replies, also where others write to
  it meanwhile; those over `carried_out` hold of a store that nobody else writes to.
- `a2a`, `binding`, `jsonrpc`: the messages, their framing for the two bindings, and replies taken
  apart.
- `select`, `response_build`: dotted paths into a result, and objects assembled from dotted names.
- `dataweave`: what the value of a selector stands for.
- `json`, `digest`, `text`: JSON trees, digests, and strings as sequences of characters.

Every executable function has a contract. What holds across functions is stated in proof functions
whose names begin with `law_`. What is taken on trust are the contracts of the few functions that call
`serde_json`, `sha2`, `pdk` and the standard library; each says in its doc comment what it claims.

## The policy, `app/`

Reading requests and replies, evaluating selectors, requests to the store, and the serialised forms of
the configuration and of an entry.
