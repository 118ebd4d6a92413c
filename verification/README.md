# usage-widget

A small always-on-top desktop widget that shows how much of the allowances of three coding services
is used, in dollars.

- `src/` is the logic, verified with Verus: what the widget shows, what a choice from its menu does,
  where its window goes, and how it starts. It touches neither the window nor the network.
- `app/` is the program around it: the window, the system calls and the drawing.
- `tests/` runs the logic on concrete values.

Settings come from the environment: `USAGE_WIDGET_REFRESH_MINS` is the time between two refreshes
(5 minutes where it is not set), `USAGE_WIDGET_OPACITY` the opacity in percent, from 20 to 100 (85
where it is not set).

`usage-widget --startup` registers the program to run at login, `usage-widget --no-startup` removes
it again.

Doubles enter the logic as bit patterns. It compares them and never computes with them; sums,
percentages and positions are the program's.

Some of what the program in `app/` shows is a choice of its own, which the logic takes as given: the
names of the services and the pages that open for them (`services.rs`), and the wording of how long
ago a refresh was (`timeutil.rs`). No client of the services is linked, so every fetch fails and each
service shows that error. The logos are drawn from mask files, and a logo whose mask is missing is
left out.
