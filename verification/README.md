# blockchain_data

An Ethereum data client whose decision logic is verified with Verus.

- `src/` — the verified library: endpoint ranking (`priority.rs`), endpoints
  and probe results (`rpc_url.rs`), the ranked endpoint list
  (`rpc_url_list.rs`), the confirmed-block walk (`fetch.rs`), the block-feed
  decisions (`feed.rs`), the provider-switch check (`provider.rs`), the clock
  (`time.rs`) and the `url` crate's `Url`
  as far as it is read (`endpoint.rs`).
- `app/` — the asynchronous client around it: providers, block streams,
  the periodic health check of endpoints, and the configuration builder.
- `tests/` — tests of the library on concrete values.
