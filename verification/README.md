# hermes

An ICT (Inner Circle Trader) trading system for MetaTrader 5, with its decision logic
verified by Verus.

- `src/` is the verified library: exact decimals (`decimal`), market records and
  timeframes (`domain`), the ICT detectors and signal (`ict`), position sizing (`risk`),
  agent labels, the unanimous quorum and what each agent is shown (`agents`), the decisions of a trading cycle
  (`engine`), walk-forward simulation (`backtest`), the live loop's decisions (`live`),
  and the addresses of the MT5 bridge and the Telegram Bot API (`mt5`, `telegram`).
  Decimal arithmetic is carried out by `rust_decimal` behind a few trusted wrappers.
- `app/` is the program around it: configuration from the environment, the HTTP
  clients of the bridge, OpenRouter and Telegram, the language-model agents, and the
  live and backtest loops (`hermes` runs the bot, `hermes backtest` a backtest).
- `tests/` runs the library on concrete inputs.
