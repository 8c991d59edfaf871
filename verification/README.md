# vapour_protection

The protection of a workstation against known malicious hosts and unwanted DNS
answers: firewall rules made of a threat feed, and a DNS companion that the
machine's requests are reflected to.

- `src/` is the library. It holds the decisions: the packets that are captured,
  rewritten, reflected and restored, the flows and their quarantine, the capture
  filters, the commands and status lines of the companion, the lifecycles of the
  companion, of a session and of its generations, the kept feed and filter, the
  plans that change the DNS settings of interfaces, the journal that gives them
  back, the watchdog that does so after a crash, and the rules on who may write
  the journal. All of it is verified with Verus.
- `app/` touches the machine: files, HTTPS, threads, processes, the packet driver
  and the Windows interfaces. It carries out the actions that the library asks for
  and hands back what happened.
- `tests/` runs the library.

Where a lifecycle alternates between decisions and work, the library holds a
machine, a type with `step`, which takes an event that is waited for and tells the
next action; or, where each answer alone says how far the work has come, a function
from an answer to the next question. Public proof functions beside them state the
order of the actions: of a machine for every event that it waits for, of such a
function for every run in which each answer is to the question before it.
