# cmux

The bookkeeping of a GTK terminal multiplexer, verified with Verus.

- `src/model.rs`: panels, workspaces and the tab manager (sidebar order,
  selection, and panel ids unique across all workspaces), with the rules for
  closing panels and workspaces, splitting the focused panel, renaming,
  recording notifications and picking the newest unread workspace.
- `src/notifications.rs`: the notification store.
- `src/app.rs`: the shared state, notifications, and the caches of terminal
  and browser widgets, generic in the widget type.
- `src/window.rs`: what the window's actions and event loop decide.
- `src/browser.rs`: what the URL bar loads for what was typed.
- `src/laws.rs`: properties that span several operations.
- `src/ids.rs`: random panel and workspace identifiers.
- `app/`: the GTK 4 / libadwaita / VTE / WebKit front end.
