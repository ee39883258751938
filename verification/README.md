# archon

The logic of the ArchonSync desktop as a verified library: window management
(workspaces, tiling, snapping, fullscreen and Game Mode), key bindings, the
control protocol and its framing, the `archonctl` command line, the lock
screen's state machine, launcher detection and launch environments, colors,
and widget stacking. Each public function states its behaviour as a contract
that Verus proves; the `law_*` proof functions state properties that span
functions (round trips, orderings, partitions).

`app/` holds what stays outside the proofs: the `archonctl` program and the
socket I/O, TOML and bincode serialization, the floating-point parts
(animation, particles, color science, palette extraction, gesture and dock
geometry), and the PAM authenticator.
