# codex_runtime_bridge

Switching the Codex account of the Codex extension running inside Antigravity, without a
restart: first through the Antigravity Cockpit plugin's WebSocket, else through the extension
host's Node Inspector (Chrome DevTools Protocol).

- `src/` is the verified library: the text handling it needs (`text`), a JSON value type and
  its accessors (`json`), the account and plugin checks (`models`, `plugin`, `account`), the
  search for Inspector ports among processes and `netstat` output (`ports`), the probing of
  Inspector endpoints and the trying of them (`inspector`), CDP calls and replies (`cdp`) with
  the JavaScript they run (`scripts`), the
  step-by-step search for the live `CodexMcpConnection` (`search`), the switch itself
  (`switch`), the desktop-shortcut injector's verdict (`shortcut`) and stable sorting
  (`order`).
- `app/` performs the I/O: the plugin bridge, HTTP and WebSocket traffic, process listing,
  `netstat`, and the PowerShell script for the desktop shortcuts.
- `tests/` exercises the library on concrete values.
