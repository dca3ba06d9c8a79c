# claw_browser

The verified core of Claw Browser, a desktop browser that an AI agent
(OpenClaw) drives over a local HTTP API while a person watches and can take
over at any time.

- `src/` is the library, verified with Verus: the wizard-screen readers of the
  `openclaw onboard` and `openclaw agents add` terminal wizards, the gateway
  and skill settings in `openclaw.json`, the frontmatter of `SKILL.md`, the
  Agent Flow runtime state, the event-stream decoder of the responses API, the
  scripts and answers of the browser-control API, the reports the tabs send
  back, and the installation of OpenClaw (Node.js strategy, Git on Windows,
  `PATH` links) as machines that say what to run next.
- `tests/` runs the library on concrete inputs.
- `app/` is the Tauri shell around it: commands, files, processes,
  pseudo-terminals, HTTP, and the serde copies of the library's types.
