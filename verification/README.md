# manager

The decision-making core of a fog-computing platform in which fog nodes bid
to host serverless functions, proved correct with Verus.

- `src/` is the verified library:
  - `market_auction`, `market_service`: the market's second-price auction
    and the steps of an auction round (call for bids, winner, provisioning);
  - `median`: cumulative average of latency measurements, and medians by
    quickselect;
  - `node_situation`, `faas_routing_table`, `flurry_map`: what a node knows
    of its parent, its children and the routes of functions, held in
    `flurry` concurrent maps;
  - `routing`, `routing_types`: linking routes through the network and
    deciding where each packet goes;
  - `faas`: provisioning functions on OpenFaaS;
  - `k8s`: the grammar of Kubernetes resource quantities and the per-node
    aggregation of metrics;
  - `map_updates`: what the node's tables hold after a series of updates;
  - `config`, `iot`, `node_view`, `net`, `ids`: configuration decoding, the
    IoT emulator's pacing, message types and identifiers.
- `app/` holds the programs around it (HTTP servers and clients, Kubernetes
  listing, unit conversion with floating point); it takes no decision itself.
- `tests/` exercises the library on concrete values.
