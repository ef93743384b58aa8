# vanguard

A control plane for multi-tenant API proxies on Kubernetes, with its rules
verified in Verus.

- `src/` is the library: what a tenant's pipeline asks for, how it is
  provisioned, repaired and taken down, who may ask for what over the REST API,
  how Entra ID tokens are read, and what the terminal shows. Every function
  states what it returns and changes; the proof functions named `law_...` state
  what holds of the library as a whole.
- `tests/` runs the library on concrete values.
- `app/` is the program around it: the Kubernetes client and its watch loop,
  the HTTP server, the terminal, the Azure clients, and the timers.

Where a rule has to wait for the cluster or a timer, the library holds it as a
run (`Reconciliation`, `Teardown`, `HealSequence`) that says what it waits for
and takes in what came of it, so the store is never locked across a wait.

A function that takes several steps reads the time from a `Clock`, anew at
every step, and its contract says which reading went where. Beside it stands
one that takes the moments as arguments (`start` and `advance`, `visit_at`,
`cycle_at`, `apply_ready_status_at`, `apply_degraded_status_at`).
