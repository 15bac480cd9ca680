# esrs

Event sourcing building blocks, verified with Verus.

`src/` is the verified library:

- `aggregate`, `state`, `manager`: the aggregate trait, the state of an aggregate
  instance and how it is rebuilt from its store events (`replay`, `apply_store_events`,
  `state_from_events`), with the law that replaying in two parts equals replaying at once.
- `async_impl`, `blocking`: the aggregates of the asynchronous and synchronous APIs and
  what they compute between the calls to their event stores.
- `store`: store events, and how new events are numbered and stamped.
- `flow`: plans of outside work (statements, handlers, buses) and `Flow`, which hands
  the steps out one by one and stops at the first failure of a step that aborts.
- `postgres`, `sqlite`, `rebuilder`: the plans that persist, delete and rebuild, with
  the laws that make them transactional; the Postgres statements and migrations.
- `sql`: the statements over an aggregate's event table.
- `bus`: Kafka client settings and record keys, RabbitMQ routing keys, pools and
  publication outcomes.

`app/` holds what talks to databases and brokers: it runs the plans of the library with
`sqlx`, `rdkafka`, `lapin` and `bb8`, and performs each step.

`tests/` runs the library on concrete values.
