//! How a relay server starts.
use vstd::hash_set::StringHashSet;
use vstd::prelude::*;

use crate::addr::Ip;
use crate::relay_server::{RelayServer, RelayServerView};
use crate::text::{
    chars_of, find_char, lemma_position, parse_port, part, pieces, port_of, position, trim_bounds,
    trimmed, until,
};

verus! {

/// The address that a line of a list names: its first word.
pub open spec fn entry(line: Seq<char>) -> Seq<char> {
    until(trimmed(line), ' ')
}

/// The addresses that a list names. An empty line names the empty text.
pub open spec fn entries(contents: Seq<char>) -> Set<Seq<char>> {
    Set::new(
        |name: Seq<char>|
            exists|i: int|
                0 <= i < pieces(contents, '\n').len() && name == entry(
                    #[trigger] pieces(contents, '\n')[i],
                ),
    )
}

/// The addresses of a list are that of its first line and those of the rest.
proof fn lemma_entries(contents: Seq<char>)
    ensures
        position(contents, '\n') >= contents.len() ==> entries(contents)
            == Set::empty().insert(entry(contents)),
        position(contents, '\n') < contents.len() ==> entries(contents) == entries(
            contents.skip(position(contents, '\n') as int + 1),
        ).insert(entry(until(contents, '\n'))),
{
    let all = pieces(contents, '\n');
    if position(contents, '\n') >= contents.len() {
        assert(all[0] == contents);
        assert(entries(contents) =~= Set::empty().insert(entry(contents)));
    } else {
        let rest = contents.skip(position(contents, '\n') as int + 1);
        let tail = pieces(rest, '\n');
        assert(all[0] == until(contents, '\n'));
        assert forall|name: Seq<char>| #[trigger] entries(contents).contains(name) implies entries(
            rest,
        ).insert(entry(until(contents, '\n'))).contains(name) by {
            let i = choose|i: int| 0 <= i < all.len() && name == entry(#[trigger] all[i]);
            if i > 0 {
                assert(all[i] == tail[i - 1]);
            }
        }
        assert forall|name: Seq<char>| #[trigger] entries(rest).contains(name) implies entries(
            contents,
        ).contains(name) by {
            let i = choose|i: int| 0 <= i < tail.len() && name == entry(#[trigger] tail[i]);
            assert(all[i + 1] == tail[i]);
        }
        assert(entries(contents) =~= entries(rest).insert(entry(until(contents, '\n'))));
    }
}

/// Adds the addresses that a list names.
pub fn read_list(list: &mut StringHashSet, contents: &str)
    ensures
        final(list)@ == old(list)@.union(entries(contents@)),
{
    let chars = chars_of(contents);
    let n: usize = chars.len();
    let mut from: usize = 0;
    assert(chars@.subrange(0, n as int) =~= contents@);
    loop
        invariant
            n == chars.len(),
            chars@ == contents@,
            from <= n,
            list@.union(entries(chars@.subrange(from as int, n as int))) == old(list)@.union(
                entries(contents@),
            ),
        ensures
            list@ == old(list)@.union(entries(contents@)),
        decreases n - from,
    {
        let ghost rest = chars@.subrange(from as int, n as int);
        let ghost before = list@;
        let end = find_char(&chars, from, n, '\n');
        let bounds = trim_bounds(&chars, from, end);
        let space = find_char(&chars, bounds.0, bounds.1, ' ');
        let name = part(contents, bounds.0, space);
        proof {
            lemma_position(rest, '\n');
            lemma_entries(rest);
            assert(chars@.subrange(from as int, end as int) =~= until(rest, '\n'));
            assert(name@ =~= entry(until(rest, '\n')));
        }
        list.insert(name);
        if end == n {
            proof {
                assert(until(rest, '\n') =~= rest);
                assert(list@ =~= before.union(entries(rest)));
            }
            break;
        }
        from = end + 1;
        proof {
            assert(chars@.subrange(from as int, n as int) =~= rest.skip(
                position(rest, '\n') as int + 1,
            ));
            assert(list@.union(entries(chars@.subrange(from as int, n as int))) =~= before.union(
                entries(rest),
            ));
        }
    }
}

/// What a relay server accepts connections at.
#[derive(Clone, Copy, Debug, PartialEq, Eq, Structural)]
pub enum Listener {
    Tcp,
    Ws,
    /// Commands, where the server is bound to an address of its own.
    Console,
}

/// Where a relay server listens.
#[derive(Clone, Copy, Debug, PartialEq, Eq, Structural)]
pub struct StartPlan {
    pub bind_addr: Option<Ip>,
    pub port: u16,
    /// The port for web sockets.
    pub port2: u16,
}

impl StartPlan {
    /// The port of a listener.
    #[verifier::allow_in_spec]
    pub fn port_of(&self, listener: Listener) -> u16
        returns
            (match listener {
                Listener::Tcp => self.port,
                Listener::Ws => self.port2,
                Listener::Console => self.port,
            }),
    {
        match listener {
            Listener::Tcp => self.port,
            Listener::Ws => self.port2,
            Listener::Console => self.port,
        }
    }
}

/// The list with the addresses that a file names added, if there is one.
pub open spec fn extended(list: Set<Seq<char>>, contents: Option<&str>) -> Set<Seq<char>> {
    match contents {
        Some(contents) => list.union(entries(contents@)),
        None => list,
    }
}

/// Where a relay server listens that has this port.
pub open spec fn plan_of(bind_addr: Option<Ip>, port: Option<u16>) -> Option<StartPlan> {
    match port {
        Some(port) => Some(StartPlan { bind_addr, port, port2: (port + 2) as u16 }),
        None => None,
    }
}

/// Starts a relay server: reads the lists, as far as there are any, and then the port.
/// Web sockets have the port two above. Without a port there is no plan.
pub fn start_with_bind(
    server: &mut RelayServer,
    bind_addr: Option<Ip>,
    port: &str,
    blacklist: Option<&str>,
    blocklist: Option<&str>,
) -> (plan: Option<StartPlan>)
    requires
        port_of(port@) matches Some(port) ==> port <= u16::MAX - 2,
    ensures
        final(server)@ == (RelayServerView {
            blacklist: extended(old(server)@.blacklist, blacklist),
            blocklist: extended(old(server)@.blocklist, blocklist),
            ..old(server)@
        }),
        plan == plan_of(bind_addr, port_of(port@)),
        final(server)@ == (RelayServerView {
            blacklist: match blacklist {
                Some(contents) => old(server)@.blacklist.union(entries(contents@)),
                None => old(server)@.blacklist,
            },
            blocklist: match blocklist {
                Some(contents) => old(server)@.blocklist.union(entries(contents@)),
                None => old(server)@.blocklist,
            },
            ..old(server)@
        }),
        plan == (match port_of(port@) {
            Some(port) => Some(StartPlan { bind_addr, port, port2: (port + 2) as u16 }),
            None => None,
        }),
{
    if let Some(contents) = blacklist {
        read_list(&mut server.blacklist, contents);
    }
    if let Some(contents) = blocklist {
        read_list(&mut server.blocklist, contents);
    }
    match parse_port(port) {
        Some(port) => Some(StartPlan { bind_addr, port, port2: port + 2 }),
        None => None,
    }
}

} // verus!
