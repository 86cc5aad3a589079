# ai_gateway

The security and safety core of an AI gateway, written in Verus: every function in `src/`
carries a contract, and Verus proves each body against it.

- `contracts`, `policy`, `engine`: normalized requests, policies and the deny-overrides,
  highest-priority-first policy decision.
- `audit`, `adapter`, `pipeline`, `integration`: audit sinks, request normalization,
  one-time capabilities bound to a Tool call, the composable security pipeline (identity
  controls, mandatory authorization, action controls) and the audit/shadow/enforce modes.
- `mcp`: the pipeline applied to MCP Tool discovery and invocation.
- `guardrails`: vehicle guardrails on prompts, Tool calls and responses.
- `circuit`: sliding windows, circuit breakers and their registry.
- `discovery`, `composition`, `config_watch`: discovery types, build profiles, and the
  decisions of the configuration watcher.
- `ext`: the calls into outside crates, each with the contract it is trusted to meet.

Times are milliseconds since the UNIX epoch; rates are parts per million; speeds are
thousandths of a km/h. `app/` holds the runtime side: serde wire forms, HTTP conversions, logging, async
adapters and the few computations that need floating point or `std::net`.
