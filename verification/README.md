# xcm_currency_adapter

Moves assets between the holding register of a cross-consensus message executor
and a set of multi-currency ledgers. A known asset is deposited and withdrawn by
the ledgers of currencies, an unknown one by the ledger of unknown assets. An
asset is known if its account, its currency and its amount are.

`src/` is the verified library. Every service that a runtime plugs in keeps a
history of the calls it has served; that it does is what the library asks of an
implementation, and all it asks. An adapter keeps its services to itself and
writes down every call to them together with the answer. The contracts say which
calls are made, in which order and with which arguments, and what is returned,
whatever the services answer, and that the histories of the services have grown
by exactly the calls written down. The failure handler keeps no history: its
answers are tied to what its own methods promise. `src/laws.rs` and
`src/history_laws.rs` hold what follows for the adapter as a whole.

`app/` makes the adapters transactors of the executor: it calls services that are
types, converts assets, errors and terms, and boxes receipts as imbalances.

`tests/` runs the library against a register with real imbalances.
