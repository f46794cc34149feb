# waku

The tab strip, split pane and torn-off window logic of the Waku chat client,
written in Verus and proved against its contracts.

- `session` — sessions, messages and lookups by id.
- `waku` — the main window's state.
- `chat_tabs` — reorder, close and re-add chat tabs; the strip's chips.
- `detached` — a torn-off window's tabs, settled against the shared state.
- `split` — the secondary pane.
- `rows` — how a transcript row of a secondary pane draws; list resizing.
- `render` — empty-state choice, sliding-window frame counter, notifications
  and their dismiss keys, panel resize handles.
- `laws` — properties that span calls, proved over the contracts' spec functions.

Drawing (GPUI elements, markdown rendering, window management) is left to the
application: these functions return plain descriptions of what to draw and
which session to select.
