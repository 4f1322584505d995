# stackable_agent

The logic of the Stackable agent, a kubelet provider that runs the
containers of a pod as systemd units, written in Verus with its contracts
proved.

Layout:

- `src/config.rs`: the command line options, their documentation and how
  their values become the configuration of the agent.
- `src/agent.rs`: what the agent logs on startup and hands on to the kubelet.
- `src/fsext.rs`: paths as text, split into components and normalized.
- `src/text.rs`: characters, the order of strings, sorting and joining.
- `src/provider/`: the provider: packages and the repositories they come
  from, the handles of running pods, the cleanup of units on startup, the
  decisions of the pod state machine (`states/pod/`) and the systemd units
  and their management (`systemdmanager/`).
- `app/`: the program around the library: reading the command line,
  looking up the host name and address, checking files and directories,
  and the file and network work behind the decisions of the library.
- `tests/`: tests of the library.

Each public proof function (`lemma_*`) states a property of the library
that holds for all inputs, such as that normalizing a path twice changes
nothing or that the content of a unit file does not depend on the order in
which its properties were set.
