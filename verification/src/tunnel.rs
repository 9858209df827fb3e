//! Bookkeeping of the TUN side of the pipeline: the live interface, the
//! DNS-derived host routes with their expiry timers, and the number of live
//! proxied connections per destination (a route is kept while traffic still
//! flows over it).
//!
//! The timer handle type is a parameter: the application stores its abort
//! handles here and aborts whatever this bookkeeping hands back.

use vstd::prelude::*;
use crate::ip::{IpTable, IpValue};
use crate::platform::TunHandle;

verus! {

impl TunHandle {
    /// A copy of the handle.
    pub fn duplicate(&self) -> (res: TunHandle)
        ensures
            res == *self,
    {
        TunHandle { name: self.name.clone(), gateway: self.gateway.clone() }
    }
}

/// The live interface, the route timers and the connection counts.
pub struct Tunnel<H> {
    active: Option<TunHandle>,
    routes: IpTable<H>,
    conns: IpTable<usize>,
}

/// The live interface, if the pipeline is up.
pub fn active_tun<H>(t: &Tunnel<H>) -> (res: Option<TunHandle>)
    requires
        t.wf(),
    ensures
        res == t.spec_active(),
{
    match &t.active {
        Some(h) => Some(h.duplicate()),
        None => None,
    }
}

/// How long a DNS-derived route lives: the record's TTL, but at least the
/// configured floor.
pub fn effective_ttl(ttl: u32, min_ttl_secs: u64) -> (res: u64)
    ensures
        res == (if ttl as u64 >= min_ttl_secs {
            ttl as u64
        } else {
            min_ttl_secs
        }),
        res >= ttl && res >= min_ttl_secs,
{
    if ttl as u64 >= min_ttl_secs {
        ttl as u64
    } else {
        min_ttl_secs
    }
}

impl<H> Tunnel<H> {
    /// Whether the tables are well formed.
    pub closed spec fn wf(&self) -> bool {
        self.routes.wf() && self.conns.wf() && forall|ip: IpValue|
            #[trigger] self.conns@.contains_key(ip) ==> self.conns@[ip] > 0
    }

    /// The live interface.
    pub closed spec fn spec_active(&self) -> Option<TunHandle> {
        self.active
    }

    /// The expiry timer of each DNS-derived route.
    pub closed spec fn spec_routes(&self) -> Map<IpValue, H> {
        self.routes@
    }

    /// The number of live proxied connections to `ip`.
    pub closed spec fn spec_conns(&self, ip: IpValue) -> nat {
        if self.conns@.contains_key(ip) {
            self.conns@[ip] as nat
        } else {
            0
        }
    }

    /// Nothing live: no interface, no routes, no connections.
    pub fn new() -> (res: Self)
        ensures
            res.wf(),
            res.spec_active() is None,
            res.spec_routes() == Map::<IpValue, H>::empty(),
            forall|ip: IpValue| res.spec_conns(ip) == 0,
    {
        Tunnel { active: None, routes: IpTable::new(), conns: IpTable::new() }
    }

    /// Records the interface once it exists.
    pub fn set_active(&mut self, handle: TunHandle)
        requires
            old(self).wf(),
        ensures
            final(self).wf(),
            final(self).spec_active() == Some(handle),
            final(self).spec_routes() == old(self).spec_routes(),
            forall|ip: IpValue| final(self).spec_conns(ip) == old(self).spec_conns(ip),
    {
        self.active = Some(handle);
    }

    /// Forgets the interface when the pipeline stops.
    pub fn clear_active(&mut self) -> (res: Option<TunHandle>)
        requires
            old(self).wf(),
        ensures
            final(self).wf(),
            res == old(self).spec_active(),
            final(self).spec_active() is None,
            final(self).spec_routes() == old(self).spec_routes(),
            forall|ip: IpValue| final(self).spec_conns(ip) == old(self).spec_conns(ip),
    {
        self.active.take()
    }

    /// Records (or refreshes) the expiry timer of the route to `ip`, handing
    /// back the timer it replaces so that it can be aborted.
    pub fn register_route(&mut self, ip: IpValue, timer: H) -> (res: Option<H>)
        requires
            old(self).wf(),
        ensures
            final(self).wf(),
            final(self).spec_routes() == old(self).spec_routes().insert(ip, timer),
            res == (if old(self).spec_routes().contains_key(ip) {
                Some(old(self).spec_routes()[ip])
            } else {
                None
            }),
            final(self).spec_active() == old(self).spec_active(),
            forall|x: IpValue| final(self).spec_conns(x) == old(self).spec_conns(x),
    {
        self.routes.insert(ip, timer)
    }

    /// Forgets the route to `ip` once it has expired.
    pub fn expire_route(&mut self, ip: IpValue) -> (res: Option<H>)
        requires
            old(self).wf(),
        ensures
            final(self).wf(),
            final(self).spec_routes() == old(self).spec_routes().remove(ip),
            res == (if old(self).spec_routes().contains_key(ip) {
                Some(old(self).spec_routes()[ip])
            } else {
                None
            }),
            final(self).spec_active() == old(self).spec_active(),
            forall|x: IpValue| final(self).spec_conns(x) == old(self).spec_conns(x),
    {
        self.routes.remove(ip)
    }

    /// The destinations that have a DNS-derived route.
    pub fn route_ips(&self) -> (res: Vec<IpValue>)
        requires
            self.wf(),
        ensures
            forall|k: IpValue| self.spec_routes().contains_key(k) <==> res@.contains(k),
    {
        self.routes.keys()
    }

    /// Forgets every DNS-derived route, handing back each destination with
    /// its timer so that timers can be aborted and routes deleted.
    pub fn drain_routes(&mut self) -> (res: Vec<(IpValue, H)>)
        requires
            old(self).wf(),
        ensures
            final(self).wf(),
            final(self).spec_routes() == Map::<IpValue, H>::empty(),
            crate::ip::unique_keys(res@),
            crate::ip::entries_map(res@) == old(self).spec_routes(),
            final(self).spec_active() == old(self).spec_active(),
            forall|x: IpValue| final(self).spec_conns(x) == old(self).spec_conns(x),
    {
        self.routes.drain()
    }

    /// The number of live proxied connections to `ip`.
    pub fn active_conn_count(&self, ip: IpValue) -> (res: usize)
        requires
            self.wf(),
        ensures
            res as nat == self.spec_conns(ip),
    {
        self.conns.count(ip)
    }

    /// A proxied connection to `ip` opened.
    pub fn conn_opened(&mut self, ip: IpValue)
        requires
            old(self).wf(),
            old(self).spec_conns(ip) < usize::MAX,
        ensures
            final(self).wf(),
            after_open(*old(self), *final(self), ip),
    {
        let n = self.conns.count(ip);
        let _ = self.conns.insert(ip, n + 1);
    }

    /// A proxied connection to `ip` closed; the count drops, and the entry
    /// goes once it reaches zero.
    pub fn conn_closed(&mut self, ip: IpValue)
        requires
            old(self).wf(),
        ensures
            final(self).wf(),
            after_close(*old(self), *final(self), ip),
    {
        let n = self.conns.count(ip);
        if n == 1 {
            let _ = self.conns.remove(ip);
        } else if n > 1 {
            let _ = self.conns.insert(ip, n - 1);
        }
    }

    /// Whether the route to `ip`, whose TTL has lapsed, must be kept because
    /// connections still use it.
    pub fn keeps_route(&self, ip: IpValue) -> (res: bool)
        requires
            self.wf(),
        ensures
            res == (self.spec_conns(ip) > 0),
    {
        self.conns.count(ip) > 0
    }
}

/// `new` is `old` after a connection to `ip` opened: its count is one
/// higher, everything else unchanged.
pub open spec fn after_open<H>(old: Tunnel<H>, new: Tunnel<H>, ip: IpValue) -> bool {
    &&& new.spec_conns(ip) == old.spec_conns(ip) + 1
    &&& forall|x: IpValue| x != ip ==> new.spec_conns(x) == old.spec_conns(x)
    &&& new.spec_active() == old.spec_active()
    &&& new.spec_routes() == old.spec_routes()
}

/// `new` is `old` after a connection to `ip` closed: its count is one lower
/// (never below zero), everything else unchanged.
pub open spec fn after_close<H>(old: Tunnel<H>, new: Tunnel<H>, ip: IpValue) -> bool {
    &&& new.spec_conns(ip) == (if old.spec_conns(ip) > 0 {
        (old.spec_conns(ip) - 1) as nat
    } else {
        0
    })
    &&& forall|x: IpValue| x != ip ==> new.spec_conns(x) == old.spec_conns(x)
    &&& new.spec_active() == old.spec_active()
    &&& new.spec_routes() == old.spec_routes()
}

/// A connection that opens and then closes leaves every per-address count,
/// the active interface and the routes as they were; while it is open, the
/// route to its address is kept.
pub proof fn lemma_open_then_close<H>(a: Tunnel<H>, b: Tunnel<H>, c: Tunnel<H>, ip: IpValue)
    requires
        after_open(a, b, ip),
        after_close(b, c, ip),
    ensures
        b.spec_conns(ip) > 0,
        forall|x: IpValue| c.spec_conns(x) == a.spec_conns(x),
        c.spec_active() == a.spec_active(),
        c.spec_routes() == a.spec_routes(),
{
}

} // verus!
