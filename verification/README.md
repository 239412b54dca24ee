# netlink

A verified codec for the netlink requests that manage BPF programs on network links, and for the
kernel's answers to them:

- bring a link up, attach or replace an XDP program (`link`);
- add a `clsact` queueing discipline, attach, detach and list BPF filters (`tc`, `tc_reply`);
- write and read the attributes of messages (`attr`, `parse`), read messages (`message`) and collect
  the datagrams of an answer (`reception`).

The contracts say what a request looks like on the wire, byte for byte, in the byte order of the
machine (`native`, `encode`), and what each answer means, malformed ones included. `laws` holds what
follows for the codec as a whole: what is written is what is read, a refused request is reported with
the kernel's own words, a filter is found under the name that it was attached with.

`src/` is the verified library. It does no input or output. `app/` sends the requests over a socket.
