use vstd::prelude::*;

use crate::error::PlanError;
use crate::text::same_text;

verus! {

/// Host addresses of a network in CIDR notation: whether it is an IPv6 network,
/// and its first and last host address as integers, or `None` where the text is
/// no such network.
pub uninterp spec fn cidr_hosts(text: Seq<char>) -> Option<(bool, u128, u128)>;

/// The canonical text of an address, given its family and its value.
pub uninterp spec fn address_text(v6: bool, bits: int) -> Seq<char>;

/// Relies on ipnet: `IpNet::from_str` reads a network in CIDR notation, and
/// `IpNet::hosts` yields its host addresses in ascending order, from which the
/// first and the last are taken.
#[verifier::external_body]
fn parse_hosts(text: &str) -> (r: Option<(bool, u128, u128)>)
    ensures
        r == cidr_hosts(text@),
        r matches Some((v6, first, last)) ==> (!v6 ==> first <= u32::MAX && last <= u32::MAX),
{
    match text.parse::<ipnet::IpNet>().ok()? {
        ipnet::IpNet::V4(n) => Some(
            (false, u32::from(n.hosts().next()?) as u128, u32::from(n.hosts().next_back()?) as u128),
        ),
        ipnet::IpNet::V6(n) => Some(
            (true, u128::from(n.hosts().next()?), u128::from(n.hosts().next_back()?)),
        ),
    }
}

/// Relies on the `Display` of std's IPv4 and IPv6 addresses, reached through
/// ipnet's single-host networks: the canonical text of the address.
#[verifier::external_body]
fn render_address(v6: bool, bits: u128) -> (r: String)
    requires
        !v6 ==> bits <= u32::MAX,
    ensures
        r@ == address_text(v6, bits as int),
{
    if v6 {
        match ipnet::Ipv6Net::new(bits.into(), 128) {
            Ok(n) => n.addr().to_string(),
            Err(_) => String::new(),
        }
    } else {
        match ipnet::Ipv4Net::new((bits as u32).into(), 32) {
            Ok(n) => n.addr().to_string(),
            Err(_) => String::new(),
        }
    }
}

/// Loopback, multicast and unspecified addresses.
pub open spec fn reserved(v6: bool, bits: int) -> bool {
    if v6 {
        bits == 0 || bits == 1 || bits >= 0xff00_0000_0000_0000_0000_0000_0000_0000
    } else {
        bits == 0 || (0x7f00_0000 <= bits < 0x8000_0000) || (0xe000_0000 <= bits < 0xf000_0000)
    }
}

/// Whether a text ends in `::`, the mark of an address whose low-order groups are all zero.
pub open spec fn ends_in_zero_groups(t: Seq<char>) -> bool {
    t.len() >= 2 && t[t.len() - 1] == ':' && t[t.len() - 2] == ':'
}

/// The texts of a list of strings.
pub open spec fn texts(v: Seq<String>) -> Seq<Seq<char>> {
    v.map_values(|s: String| s@)
}

/// Whether an address may be handed out, given the texts of the taken ones.
pub open spec fn eligible(v6: bool, bits: int, taken: Seq<Seq<char>>) -> bool {
    &&& !reserved(v6, bits)
    &&& !ends_in_zero_groups(address_text(v6, bits))
    &&& !taken.contains(address_text(v6, bits))
}

/// The first eligible address from `from` up to `last`, if any.
pub open spec fn first_eligible(v6: bool, from: int, last: int, taken: Seq<Seq<char>>) -> Option<
    int,
>
    decreases last + 1 - from,
{
    if from > last {
        None
    } else if eligible(v6, from, taken) {
        Some(from)
    } else {
        first_eligible(v6, from + 1, last, taken)
    }
}

/// The model of a pool: the family and host range of its network, and the texts
/// of the addresses already taken.
pub struct PoolModel {
    pub v6: bool,
    pub first: int,
    pub last: int,
    pub taken: Seq<Seq<char>>,
}

/// The address that the next allocation from `p` hands out.
pub open spec fn next_address(p: PoolModel) -> Option<int> {
    first_eligible(p.v6, p.first, p.last, p.taken)
}

/// The pool after an allocation of `bits` from it.
pub open spec fn after_allocation(p: PoolModel, bits: int) -> PoolModel {
    PoolModel { taken: p.taken.push(address_text(p.v6, bits)), ..p }
}

/// The first eligible address is eligible, lies in the range, and no address
/// before it is eligible; with none, no address of the range is eligible.
proof fn lemma_first_eligible(v6: bool, from: int, last: int, taken: Seq<Seq<char>>)
    ensures
        match first_eligible(v6, from, last, taken) {
            Some(a) => from <= a <= last && eligible(v6, a, taken) && forall|b: int|
                from <= b < a ==> !#[trigger] eligible(v6, b, taken),
            None => forall|b: int| from <= b <= last ==> !#[trigger] eligible(v6, b, taken),
        },
    decreases last + 1 - from,
{
    if from <= last && !eligible(v6, from, taken) {
        lemma_first_eligible(v6, from + 1, last, taken);
        assert forall|b: int| from <= b < from + 1 implies !#[trigger] eligible(v6, b, taken) by {
            assert(b == from);
        }
    }
}

/// An allocation hands out an address of the network that is neither loopback,
/// multicast, unspecified, nor ends in zero groups, and that was not taken; after
/// it, that address is taken, and so is every address taken before.
pub proof fn law_allocation_is_fresh(p: PoolModel, a: int)
    requires
        next_address(p) == Some(a),
    ensures
        p.first <= a <= p.last,
        !reserved(p.v6, a),
        !ends_in_zero_groups(address_text(p.v6, a)),
        !p.taken.contains(address_text(p.v6, a)),
        after_allocation(p, a).taken.contains(address_text(p.v6, a)),
        forall|t: Seq<char>| p.taken.contains(t) ==> after_allocation(p, a).taken.contains(t),
{
    lemma_first_eligible(p.v6, p.first, p.last, p.taken);
    let q = after_allocation(p, a);
    assert(q.taken[p.taken.len() as int] == address_text(p.v6, a));
    assert forall|t: Seq<char>| p.taken.contains(t) implies q.taken.contains(t) by {
        let k = choose|k: int| 0 <= k < p.taken.len() && p.taken[k] == t;
        assert(q.taken[k] == t);
    }
}

/// Two allocations in a row from the same pool never hand out the same address.
pub proof fn law_allocation_never_repeats(p: PoolModel, a: int, b: int)
    requires
        next_address(p) == Some(a),
        next_address(after_allocation(p, a)) == Some(b),
    ensures
        address_text(p.v6, a) != address_text(p.v6, b),
        a != b,
{
    law_allocation_is_fresh(p, a);
    law_allocation_is_fresh(after_allocation(p, a), b);
}

/// A pool with nothing taken and exactly one eligible host hands out that host
/// once, and nothing at the next allocation.
pub proof fn law_single_host_once(p: PoolModel, a: int)
    requires
        p.taken.len() == 0,
        p.first <= a <= p.last,
        eligible(p.v6, a, p.taken),
        forall|b: int| p.first <= b <= p.last && b != a ==> !#[trigger] eligible(p.v6, b, p.taken),
    ensures
        next_address(p) == Some(a),
        next_address(after_allocation(p, a)) is None,
{
    lemma_first_eligible(p.v6, p.first, p.last, p.taken);
    let q = after_allocation(p, a);
    lemma_first_eligible(q.v6, q.first, q.last, q.taken);
    assert(q.taken[0] == address_text(p.v6, a));
    assert forall|b: int| q.first <= b <= q.last implies !#[trigger] eligible(q.v6, b, q.taken) by {
        if b != a {
            assert(!eligible(p.v6, b, p.taken));
            if !reserved(p.v6, b) && !ends_in_zero_groups(address_text(p.v6, b)) {
                assert(p.taken.contains(address_text(p.v6, b)));
                assert(false);
            }
        }
    }
}

/// The network that discovery settles on, from the internal networks found by
/// each of its lookups, in order of preference: the first lookup that found
/// exactly one.
pub open spec fn chosen_network(candidates: Seq<Seq<Seq<char>>>) -> Option<Seq<char>>
    decreases candidates.len(),
{
    if candidates.len() == 0 {
        None
    } else if candidates[0].len() == 1 {
        Some(candidates[0][0])
    } else {
        chosen_network(candidates.drop_first())
    }
}

/// Picks the network of `name` from the results of the discovery lookups, given
/// in order of preference: the route network of the project, the project
/// network, then the internal route network.
pub fn select_network(name: &str, candidates: &Vec<Vec<String>>) -> (r: Result<String, PlanError>)
    ensures
        match chosen_network(candidates@.map_values(|c: Vec<String>| texts(c@))) {
            Some(n) => r matches Ok(t) && t@ == n,
            None => r matches Err(PlanError::NetworkNotFound(t)) && t@ == name@,
        },
{
    let ghost all = candidates@.map_values(|c: Vec<String>| texts(c@));
    let mut i: usize = 0;
    assert(all.subrange(0, all.len() as int) =~= all);
    while i < candidates.len()
        invariant
            i <= candidates@.len(),
            all == candidates@.map_values(|c: Vec<String>| texts(c@)),
            chosen_network(all) == chosen_network(all.subrange(i as int, all.len() as int)),
        decreases candidates@.len() - i,
    {
        let ghost rest = all.subrange(i as int, all.len() as int);
        assert(rest.drop_first() =~= all.subrange(i + 1, all.len() as int));
        assert(rest[0] == texts(candidates@[i as int]@));
        if candidates[i].len() == 1 {
            return Ok(candidates[i][0].clone());
        }
        i = i + 1;
    }
    assert(all.subrange(i as int, all.len() as int) =~= Seq::<Seq<Seq<char>>>::empty());
    Err(PlanError::NetworkNotFound(name.to_string()))
}

/// The host addresses of a network, from the first to the last.
#[derive(Debug, Clone, Copy, PartialEq, Eq)]
pub enum HostRange {
    V4(u32, u32),
    V6(u128, u128),
}

impl HostRange {
    /// Whether the network is an IPv6 one.
    pub open spec fn is_v6(self) -> bool {
        self is V6
    }

    /// The first host address.
    pub open spec fn first(self) -> int {
        match self {
            HostRange::V4(f, _) => f as int,
            HostRange::V6(f, _) => f as int,
        }
    }

    /// The last host address.
    pub open spec fn last(self) -> int {
        match self {
            HostRange::V4(_, l) => l as int,
            HostRange::V6(_, l) => l as int,
        }
    }
}

/// The free addresses of one network.
#[derive(Debug)]
pub struct FreeIps {
    taken_ips: Vec<String>,
    network: HostRange,
}

impl View for FreeIps {
    type V = PoolModel;

    closed spec fn view(&self) -> PoolModel {
        PoolModel {
            v6: self.network.is_v6(),
            first: self.network.first(),
            last: self.network.last(),
            taken: texts(self.taken_ips@),
        }
    }
}

impl FreeIps {
    /// The pool of the network `cidr`, with the addresses `taken` already in use.
    pub fn new(cidr: &str, taken: Vec<String>) -> (r: Result<FreeIps, PlanError>)
        ensures
            match cidr_hosts(cidr@) {
                Some((v6, first, last)) => r matches Ok(p) && p@ == PoolModel {
                    v6,
                    first: first as int,
                    last: last as int,
                    taken: texts(taken@),
                },
                None => r matches Err(PlanError::InvalidCidr(t)) && t@ == cidr@,
            },
    {
        match parse_hosts(cidr) {
            Some((v6, first, last)) => {
                let network = if v6 {
                    HostRange::V6(first, last)
                } else {
                    HostRange::V4(first as u32, last as u32)
                };
                Ok(FreeIps { taken_ips: taken, network })
            },
            None => Err(PlanError::InvalidCidr(cidr.to_string())),
        }
    }

    /// Whether `text` is among the taken addresses.
    fn is_taken(&self, text: &String) -> (r: bool)
        ensures
            r == self@.taken.contains(text@),
    {
        let mut i: usize = 0;
        while i < self.taken_ips.len()
            invariant
                i <= self.taken_ips@.len(),
                forall|k: int| 0 <= k < i ==> self.taken_ips@[k]@ != text@,
            decreases self.taken_ips@.len() - i,
        {
            if same_text(self.taken_ips[i].as_str(), text.as_str()) {
                assert(self@.taken[i as int] == text@);
                return true;
            }
            i = i + 1;
        }
        assert forall|k: int| 0 <= k < self@.taken.len() implies self@.taken[k] != text@ by {
            assert(self@.taken[k] == self.taken_ips@[k]@);
        }
        false
    }

    /// Hands out the first host address of the network, in ascending order, that is
    /// neither taken, loopback, multicast, unspecified, nor ends in zero groups, and
    /// marks it as taken; `None` when there is no such address.
    pub fn get_ip(&mut self) -> (r: Option<String>)
        ensures
            match next_address(old(self)@) {
                Some(a) => r matches Some(t) && t@ == address_text(old(self)@.v6, a)
                    && final(self)@ == after_allocation(old(self)@, a),
                None => r is None && final(self)@ == old(self)@,
            },
    {
        let (v6, first, last): (bool, u128, u128) = match self.network {
            HostRange::V4(f, l) => (false, f as u128, l as u128),
            HostRange::V6(f, l) => (true, f, l),
        };
        if first > last {
            return None;
        }
        let mut cur: u128 = first;
        loop
            invariant
                *self == *old(self),
                v6 == self@.v6,
                first == self@.first,
                last == self@.last,
                !v6 ==> last <= u32::MAX,
                first <= cur <= last,
                next_address(self@) == first_eligible(v6, cur as int, last as int, self@.taken),
            decreases last - cur,
        {
            let text = render_address(v6, cur);
            let is_reserved = if v6 {
                cur == 0 || cur == 1 || cur >= 0xff00_0000_0000_0000_0000_0000_0000_0000
            } else {
                cur == 0 || (0x7f00_0000 <= cur && cur < 0x8000_0000) || (0xe000_0000 <= cur && cur
                    < 0xf000_0000)
            };
            let n = text.as_str().unicode_len();
            let zero_groups = n >= 2 && text.as_str().get_char(n - 1) == ':' && text.as_str().get_char(
                n - 2,
            ) == ':';
            if !is_reserved && !zero_groups && !self.is_taken(&text) {
                let ghost before = self@;
                let found = text.clone();
                self.taken_ips.push(text);
                assert(texts(self.taken_ips@) =~= before.taken.push(found@));
                return Some(found);
            }
            assert(!eligible(v6, cur as int, self@.taken));
            if cur == last {
                assert(first_eligible(v6, cur as int + 1, last as int, self@.taken) is None);
                return None;
            }
            cur = cur + 1;
        }
    }
}

/// The pool that the latest entry named `k` among the first `n` holds.
pub open spec fn lookup(names: Seq<Seq<char>>, pools: Seq<PoolModel>, n: int, k: Seq<char>) -> Option<
    PoolModel,
>
    decreases n,
{
    if n <= 0 {
        None
    } else if names[n - 1] == k {
        Some(pools[n - 1])
    } else {
        lookup(names, pools, n - 1, k)
    }
}

/// A name without an entry has no pool.
proof fn lemma_lookup_absent(names: Seq<Seq<char>>, pools: Seq<PoolModel>, n: int, k: Seq<char>)
    requires
        forall|j: int| 0 <= j < n ==> names[j] != k,
    ensures
        lookup(names, pools, n, k) is None,
    decreases n,
{
    if n > 0 {
        lemma_lookup_absent(names, pools, n - 1, k);
    }
}

/// A name has the pool of its latest entry.
proof fn lemma_lookup_latest(names: Seq<Seq<char>>, pools: Seq<PoolModel>, n: int, i: int)
    requires
        0 <= i < n,
        forall|j: int| i < j < n ==> names[j] != names[i],
    ensures
        lookup(names, pools, n, names[i]) == Some(pools[i]),
    decreases n,
{
    if n - 1 > i {
        lemma_lookup_latest(names, pools, n - 1, i);
    }
}

/// Replacing the pool of the latest entry of a name changes the pool of that name alone.
proof fn lemma_lookup_update(
    names: Seq<Seq<char>>,
    pools: Seq<PoolModel>,
    n: int,
    i: int,
    x: PoolModel,
    k: Seq<char>,
)
    requires
        0 <= i < n <= pools.len(),
        forall|j: int| i < j < n ==> names[j] != names[i],
    ensures
        lookup(names, pools.update(i, x), n, k) == if k == names[i] {
            Some(x)
        } else {
            lookup(names, pools, n, k)
        },
    decreases n,
{
    if n - 1 > i {
        lemma_lookup_update(names, pools, n - 1, i, x, k);
    } else if k != names[i] {
        lemma_lookup_prefix_update(names, pools, n - 1, i, x, k);
    }
}

/// Replacing a pool past the first `n` entries leaves them as they are.
proof fn lemma_lookup_prefix_update(
    names: Seq<Seq<char>>,
    pools: Seq<PoolModel>,
    n: int,
    i: int,
    x: PoolModel,
    k: Seq<char>,
)
    requires
        0 <= n <= i < pools.len(),
    ensures
        lookup(names, pools.update(i, x), n, k) == lookup(names, pools, n, k),
    decreases n,
{
    if n > 0 {
        lemma_lookup_prefix_update(names, pools, n - 1, i, x, k);
    }
}

/// A new entry leaves the first `n` entries as they are.
proof fn lemma_lookup_extend(
    names: Seq<Seq<char>>,
    pools: Seq<PoolModel>,
    n: int,
    k0: Seq<char>,
    x: PoolModel,
    k: Seq<char>,
)
    requires
        0 <= n <= names.len(),
        n <= pools.len(),
    ensures
        lookup(names.push(k0), pools.push(x), n, k) == lookup(names, pools, n, k),
    decreases n,
{
    if n > 0 {
        lemma_lookup_extend(names, pools, n - 1, k0, x, k);
    }
}

/// The network names of a list of entries.
pub open spec fn entry_names(e: Seq<(String, FreeIps)>) -> Seq<Seq<char>> {
    e.map_values(|x: (String, FreeIps)| x.0@)
}

/// The pools of a list of entries.
pub open spec fn entry_pools(e: Seq<(String, FreeIps)>) -> Seq<PoolModel> {
    e.map_values(|x: (String, FreeIps)| x.1@)
}

/// The address pools of all networks met so far, keyed by network name.
#[derive(Debug)]
pub struct IpPools {
    entries: Vec<(String, FreeIps)>,
}

impl View for IpPools {
    type V = Map<Seq<char>, PoolModel>;

    closed spec fn view(&self) -> Map<Seq<char>, PoolModel> {
        Map::new(
            |k: Seq<char>|
                lookup(
                    entry_names(self.entries@),
                    entry_pools(self.entries@),
                    self.entries@.len() as int,
                    k,
                ) is Some,
            |k: Seq<char>|
                lookup(
                    entry_names(self.entries@),
                    entry_pools(self.entries@),
                    self.entries@.len() as int,
                    k,
                )->0,
        )
    }
}

impl IpPools {
    /// No pool yet.
    pub fn new() -> (r: IpPools)
        ensures
            r@ == Map::<Seq<char>, PoolModel>::empty(),
    {
        let r = IpPools { entries: Vec::new() };
        assert(r@ =~= Map::<Seq<char>, PoolModel>::empty());
        r
    }

    /// The place of the latest pool named `name`.
    fn find(&self, name: &str) -> (r: Option<usize>)
        ensures
            match r {
                Some(i) => i < self.entries@.len() && self.entries@[i as int].0@ == name@
                    && forall|j: int| i < j < self.entries@.len() ==> self.entries@[j].0@ != name@,
                None => forall|j: int| 0 <= j < self.entries@.len() ==> self.entries@[j].0@ != name@,
            },
    {
        let mut i: usize = self.entries.len();
        while i > 0
            invariant
                i <= self.entries@.len(),
                forall|j: int| i <= j < self.entries@.len() ==> self.entries@[j].0@ != name@,
            decreases i,
        {
            if same_text(self.entries[i - 1].0.as_str(), name) {
                return Some(i - 1);
            }
            i = i - 1;
        }
        None
    }

    /// What the search for a name says of the pools.
    proof fn lemma_found(&self, name: &str, r: Option<usize>)
        requires
            match r {
                Some(i) => i < self.entries@.len() && self.entries@[i as int].0@ == name@
                    && forall|j: int| i < j < self.entries@.len() ==> self.entries@[j].0@ != name@,
                None => forall|j: int| 0 <= j < self.entries@.len() ==> self.entries@[j].0@ != name@,
            },
        ensures
            match r {
                Some(i) => self@.contains_key(name@) && self@[name@] == self.entries@[i as int].1@,
                None => !self@.contains_key(name@),
            },
    {
        let names = entry_names(self.entries@);
        let n = self.entries@.len() as int;
        match r {
            Some(i) => {
                assert forall|j: int| i < j < n implies names[j] != names[i as int] by {
                    assert(names[j] == self.entries@[j].0@);
                }
                lemma_lookup_latest(names, entry_pools(self.entries@), n, i as int);
                assert(names[i as int] == name@);
            },
            None => {
                assert forall|j: int| 0 <= j < n implies names[j] != name@ by {
                    assert(names[j] == self.entries@[j].0@);
                }
                lemma_lookup_absent(names, entry_pools(self.entries@), n, name@);
            },
        }
    }

    /// Whether a pool for `name` exists.
    pub fn has_pool(&self, name: &str) -> (r: bool)
        ensures
            r == self@.contains_key(name@),
    {
        let found = self.find(name);
        proof {
            self.lemma_found(name, found);
        }
        found.is_some()
    }

    /// Keeps `pool` as the pool of `name`, unless `name` has one already: the
    /// pool that is there stays.
    pub fn add_pool(&mut self, name: String, pool: FreeIps)
        ensures
            old(self)@.contains_key(name@) ==> final(self)@ == old(self)@,
            !old(self)@.contains_key(name@) ==> final(self)@ == old(self)@.insert(name@, pool@),
    {
        if self.has_pool(name.as_str()) {
            return;
        }
        let ghost names0 = entry_names(self.entries@);
        let ghost pools0 = entry_pools(self.entries@);
        let ghost n = self.entries@.len() as int;
        let ghost key = name@;
        let ghost model = pool@;
        self.entries.push((name, pool));
        proof {
            assert(entry_names(self.entries@) =~= names0.push(key));
            assert(entry_pools(self.entries@) =~= pools0.push(model));
            assert forall|k: Seq<char>|
                lookup(names0.push(key), pools0.push(model), n + 1, k) == if k == key {
                    Some(model)
                } else {
                    lookup(names0, pools0, n, k)
                } by {
                lemma_lookup_extend(names0, pools0, n, key, model, k);
            }
            assert(self@ =~= old(self)@.insert(key, model));
        }
    }

    /// Hands out the next free address of the network `name`, as
    /// [`FreeIps::get_ip`] does for its pool.
    pub fn get_ip(&mut self, name: &str) -> (r: Result<String, PlanError>)
        ensures
            !old(self)@.contains_key(name@) ==> final(self)@ == old(self)@ && (r matches Err(
                PlanError::UnknownNetwork(t),
            ) && t@ == name@),
            old(self)@.contains_key(name@) ==> match next_address(old(self)@[name@]) {
                Some(a) => r matches Ok(t) && t@ == address_text(old(self)@[name@].v6, a)
                    && final(self)@ == old(self)@.insert(
                    name@,
                    after_allocation(old(self)@[name@], a),
                ),
                None => final(self)@ == old(self)@ && (r matches Err(PlanError::NoFreeIp(t)) && t@
                    == name@),
            },
    {
        let found = self.find(name);
        proof {
            self.lemma_found(name, found);
        }
        let i = match found {
            Some(i) => i,
            None => return Err(PlanError::UnknownNetwork(name.to_string())),
        };
        let ghost names0 = entry_names(self.entries@);
        let ghost pools0 = entry_pools(self.entries@);
        let ghost n = self.entries@.len() as int;
        let r = self.entries[i].1.get_ip();
        let ghost model = self.entries@[i as int].1@;
        proof {
            assert(entry_pools(self.entries@) =~= pools0.update(i as int, model));
            assert(entry_names(self.entries@) =~= names0);
            assert forall|j: int| i < j < n implies names0[j] != names0[i as int] by {
                assert(names0[j] == old(self).entries@[j].0@);
            }
            assert forall|k: Seq<char>|
                lookup(names0, pools0.update(i as int, model), n, k) == if k == names0[i as int] {
                    Some(model)
                } else {
                    lookup(names0, pools0, n, k)
                } by {
                lemma_lookup_update(names0, pools0, n, i as int, model, k);
            }
            assert(names0[i as int] == name@);
        }
        match r {
            Some(t) => {
                proof {
                    assert(self@ =~= old(self)@.insert(name@, model));
                }
                Ok(t)
            },
            None => {
                proof {
                    assert(self@ =~= old(self)@);
                }
                Err(PlanError::NoFreeIp(name.to_string()))
            },
        }
    }
}

} // verus!
