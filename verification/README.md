# talpa

A system-tray app that routes traffic for chosen domains and IP subnets
through an SSH SOCKS5 tunnel via a userspace TUN device.

The decision-making core is a Verus-verified library (`src/`):

- `config`, `paths` — configuration, live domain toggles, per-OS locations
- `matcher`, `dns`, `dns_proxy` — domain/IP matching, DNS wire handling,
  split-DNS mask selection
- `socks5`, `ssh`, `tunnel`, `ip`, `wire` — SOCKS5 handshake and requests,
  the ssh command lines, route and connection bookkeeping
- `controller`, `tray`, `proxy_service`, `menubar` — the pipeline state
  machines and what the menus show
- `platform`, `shell`, `system_proxy` — command arguments, scripts, rc-file
  blocks and the parsing of command output
- `text`, `line_facts` — string helpers and facts about line splitting

`app/` is the program around it: the tray event loop, processes, sockets,
files and the environment. `tests/` exercises the library.
