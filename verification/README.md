# HTTP binding

The `http` backend binding of a gateway, written in Verus. A profile fronts a
REST/JSON endpoint: a POST sends the caller's arguments as a JSON body, a GET as
a query string, and every answer comes back as one JSON envelope.

## Layout

`src/` is the verified library. It holds no I/O.

- `types`, `registration`, `plugin`: the operator's spec with its defaults, the
  checks that it passes, and the registered profiles.
- `call`, `envelope`, `outcome`, `streaming`: from a request to the call that
  goes out, and from what the upstream did to the answer, buffered or streamed.
- `observability`: outcome labels, audit events, metrics and spans.
- `completion`: completion endpoints of template variables; no template can lead
  a request away from the origin of the binding.
- `cdylib`: the binding behind a synchronous host, with its open streams.
- `json`, `pairs`, `text`, `error`: documents, headers in the order of their
  names, characters and errors.
- `serde_bridge`, `url_bridge`, `path_bridge`, `clock`: what is believed of
  `serde_json`, `url`, `serde_json_path` and `chrono`, and nothing else.

Public proof functions whose names begin with `law_` state what holds across
functions.

`app/` is the plugin around the library: the network, the host, the template
language and the serde forms of the configuration. It builds in the gateway's
workspace, beside the gateway's own crates and the plugin's descriptor.

`tests/` run the library with the real crates.
