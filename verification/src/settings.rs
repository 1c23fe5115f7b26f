//! Server settings: the host → upstream-URI mapping.
//!
//! Configuration-file loading happens outside the library; it hands over a
//! list of `ServerSetting` entries, from which `Settings::servers` builds the
//! lookup map the proxy consults. When two entries share a host, the later
//! entry wins, as in a map built by repeated insertion.

use vstd::prelude::*;

verus! {

/// One configured server: an inbound host and the upstream base URI requests
/// for that host are proxied to.
pub struct ServerSetting {
    pub host: String,
    pub proxy_pass: String,
}

/// The configured server list.
pub struct Settings {
    servers: Vec<ServerSetting>,
}

impl View for Settings {
    type V = Seq<(Seq<char>, Seq<char>)>;

    closed spec fn view(&self) -> Seq<(Seq<char>, Seq<char>)> {
        self.servers@.map_values(|s: ServerSetting| (s.host@, s.proxy_pass@))
    }
}

/// The host → upstream mapping, as an ordered list of entries; lookups take
/// the latest entry for a host.
pub struct ServerMap {
    entries: Vec<(String, String)>,
}

impl View for ServerMap {
    type V = Seq<(Seq<char>, Seq<char>)>;

    closed spec fn view(&self) -> Seq<(Seq<char>, Seq<char>)> {
        self.entries@.map_values(|e: (String, String)| (e.0@, e.1@))
    }
}

/// The value of the latest entry whose host equals `host`, if any.
pub open spec fn lookup_spec(entries: Seq<(Seq<char>, Seq<char>)>, host: Seq<char>) -> Option<
    Seq<char>,
>
    decreases entries.len(),
{
    if entries.len() == 0 {
        None
    } else if entries.last().0 == host {
        Some(entries.last().1)
    } else {
        lookup_spec(entries.drop_last(), host)
    }
}

impl ServerMap {
    pub fn new() -> (r: ServerMap)
        ensures
            r@ == Seq::<(Seq<char>, Seq<char>)>::empty(),
    {
        let r = ServerMap { entries: Vec::new() };
        assert(r@ =~= Seq::<(Seq<char>, Seq<char>)>::empty());
        r
    }

    pub fn insert(&mut self, host: String, proxy_pass: String)
        ensures
            final(self)@ == old(self)@.push((host@, proxy_pass@)),
    {
        let ghost before = self@;
        self.entries.push((host, proxy_pass));
        assert(self@ =~= before.push((self.entries@.last().0@, self.entries@.last().1@)));
    }

    /// The upstream URI configured for this host, if any.
    pub fn lookup(&self, host: &String) -> (r: Option<String>)
        ensures
            match r {
                Some(v) => lookup_spec(self@, host@) == Some(v@),
                None => lookup_spec(self@, host@) is None,
            },
    {
        let mut i: usize = self.entries.len();
        assert(self@.take(i as int) =~= self@);
        while i > 0
            invariant
                0 <= i <= self.entries@.len(),
                self@.len() == self.entries@.len(),
                lookup_spec(self@, host@) == lookup_spec(self@.take(i as int), host@),
            decreases i,
        {
            let idx = i - 1;
            assert(self@.take(i as int).last() == self@[idx as int]);
            assert(self@.take(i as int).drop_last() =~= self@.take(idx as int));
            if self.entries[idx].0 == *host {
                return Some(self.entries[idx].1.clone());
            }
            i = idx;
        }
        assert(lookup_spec(self@.take(0), host@) is None);
        None
    }
}

impl Settings {
    pub fn new(servers: Vec<ServerSetting>) -> (r: Settings)
        ensures
            r@ == servers@.map_values(|s: ServerSetting| (s.host@, s.proxy_pass@)),
    {
        Settings { servers }
    }

    /// The host → upstream map these settings configure, entry order kept.
    pub fn servers(self) -> (r: ServerMap)
        ensures
            r@ == self@,
    {
        let ghost sv = self@;
        let mut map = ServerMap::new();
        let mut i: usize = 0;
        while i < self.servers.len()
            invariant
                sv == self@,
                sv.len() == self.servers@.len(),
                0 <= i <= self.servers@.len(),
                map@ == sv.take(i as int),
            decreases self.servers@.len() - i,
        {
            assert(sv[i as int] == (self.servers@[i as int].host@, self.servers@[
                i as int
            ].proxy_pass@));
            map.insert(self.servers[i].host.clone(), self.servers[i].proxy_pass.clone());
            assert(map@ =~= sv.take(i + 1));
            i += 1;
        }
        assert(sv.take(sv.len() as int) =~= sv);
        map
    }
}

} // verus!
