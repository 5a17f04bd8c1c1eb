# not_modified

Conditional requests for an nginx header filter, with the decisions proved in
[Verus](https://github.com/verus-lang/verus).

The filter compares `If-Modified-Since`, `If-Unmodified-Since`, `If-Match` and
`If-None-Match` against the response's `Last-Modified` time and `ETag`. It turns
a `200 OK` into a bare `304 Not Modified`, has the request finalized with
`412 Precondition Failed`, or leaves the response as it is.

| path | contents |
| --- | --- |
| `src/etag.rs` | entity-tag list matching |
| `src/etag_laws.rs` | what holds of such lists as a whole |
| `src/request.rs` | what the filter sees of a request and its response |
| `src/filter.rs` | the filter and its three tests |
| `src/filter_laws.rs` | what holds of the filter as a whole |
| `src/chain.rs` | how a filter joins the chain and hands requests on |
| `app/lib.rs` | the nginx module: reads the request, carries the decision out |

The library calls no nginx function. Dates are read by a function that the caller
passes in; the module passes `ngx_parse_http_time`, and the filter calls it only
for a date that it needs. A second function is told of each list and tag that are
compared; the module writes them to the debug log.

Filters form a chain in which each one saves the current head and puts itself in
front: the filter installed last runs first. Where this one comes to stand is up
to nginx. Its build places a filter that is linked in statically ahead of nginx's
own `not_modified` filter in the list of modules, so it is installed earlier, runs
later, and meets responses that are converted already. A dynamic module is
installed after all static ones, and so runs ahead of them.
