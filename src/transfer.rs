use vstd::prelude::*;

verus! {

broadcast use vstd::std_specs::hash::group_hash_axioms;

/// The boundary-crossing value: an address (0 stands for null) and a length.
#[derive(Clone, Copy, Debug, PartialEq, Eq, Structural)]
pub struct FfiData {
    pub data: usize,
    pub len: i64,
}

impl FfiData {
    /// The buffer returned on every failure path: null address, length 0.
    pub fn empty() -> (r: FfiData)
        ensures
            r.data == 0,
            r.len == 0,
    {
        FfiData { data: 0, len: 0 }
    }
}

/// What is needed to reclaim a transferred allocation: its logical length
/// and its backing capacity.
#[derive(Clone, Copy, Debug, PartialEq, Eq, Structural)]
pub struct AllocInfo {
    pub len: usize,
    pub cap: usize,
}

/// The table of live transferred allocations, keyed by address.
pub struct AllocRegistry {
    entries: std::collections::HashMap<usize, AllocInfo>,
}

/// The table after a buffer at `addr` was handed over.
pub open spec fn recorded(m: Map<usize, AllocInfo>, addr: usize, info: AllocInfo) -> Map<usize, AllocInfo> {
    m.insert(addr, info)
}

/// The table after a release of `addr`: the entry, if any, is gone.
pub open spec fn released(m: Map<usize, AllocInfo>, addr: usize) -> Map<usize, AllocInfo> {
    m.remove(addr)
}

/// What a release of `addr` hands back for reclamation: the entry, if any.
pub open spec fn reclaimed(m: Map<usize, AllocInfo>, addr: usize) -> Option<AllocInfo> {
    if m.contains_key(addr) {
        Some(m[addr])
    } else {
        None
    }
}

impl View for AllocRegistry {
    type V = Map<usize, AllocInfo>;

    closed spec fn view(&self) -> Map<usize, AllocInfo> {
        self.entries@
    }
}

impl AllocRegistry {
    /// No entry stands at the null address.
    pub open spec fn well_formed(&self) -> bool {
        !self@.contains_key(0)
    }

    /// A registry with no live allocation.
    pub fn new() -> (r: AllocRegistry)
        ensures
            r@ == Map::<usize, AllocInfo>::empty(),
            r.well_formed(),
    {
        AllocRegistry { entries: std::collections::HashMap::new() }
    }

    /// Records the allocation of `len` bytes (backing capacity `cap`) at
    /// `addr`, and returns the transferred buffer that describes it.
    pub fn transfer(&mut self, addr: usize, len: usize, cap: usize) -> (r: FfiData)
        requires
            addr != 0,
            len <= cap,
            len <= i64::MAX,
        ensures
            old(self).well_formed() ==> final(self).well_formed(),
            final(self)@ == recorded(old(self)@, addr, AllocInfo { len, cap }),
            r.data == addr,
            r.len == len as i64,
    {
        self.entries.insert(addr, AllocInfo { len, cap });
        FfiData { data: addr, len: len as i64 }
    }

    /// Removes the entry at `addr` and hands back what is needed to reclaim
    /// it; on an address with no entry (null included) nothing changes and
    /// `None` comes back.
    pub fn release(&mut self, addr: usize) -> (r: Option<AllocInfo>)
        ensures
            old(self).well_formed() ==> final(self).well_formed(),
            final(self)@ == released(old(self)@, addr),
            r == reclaimed(old(self)@, addr),
    {
        self.entries.remove(&addr)
    }

    /// Whether a live allocation is recorded at `addr`.
    pub fn is_live(&self, addr: usize) -> (r: bool)
        ensures
            r == self@.contains_key(addr),
    {
        self.entries.contains_key(&addr)
    }

    /// The number of live allocations.
    pub fn live_count(&self) -> (r: usize)
        ensures
            r == self@.len(),
    {
        self.entries.len()
    }
}

/// Once a transferred buffer is released, what was recorded for it comes
/// back, and any further release of its address hands back nothing and
/// leaves the table as it is: no allocation is reclaimed twice.
pub proof fn lemma_release_once(m: Map<usize, AllocInfo>, addr: usize, info: AllocInfo)
    ensures
        reclaimed(recorded(m, addr, info), addr) == Some(info),
        reclaimed(released(recorded(m, addr, info), addr), addr) == None::<AllocInfo>,
        released(released(recorded(m, addr, info), addr), addr) == released(
            recorded(m, addr, info),
            addr,
        ),
{
    assert(released(released(recorded(m, addr, info), addr), addr) =~= released(
        recorded(m, addr, info),
        addr,
    ));
}

/// The table after `k` releases of `addr` in a row.
pub open spec fn released_times(m: Map<usize, AllocInfo>, addr: usize, k: nat) -> Map<usize, AllocInfo>
    decreases k,
{
    if k == 0 {
        m
    } else {
        released(released_times(m, addr, (k - 1) as nat), addr)
    }
}

/// However many times a transferred buffer's address is released, only the
/// first release hands back its entry: every later one hands back nothing
/// and leaves the table as the first left it.
pub proof fn lemma_release_many(m: Map<usize, AllocInfo>, addr: usize, info: AllocInfo, k: nat)
    requires
        k >= 1,
    ensures
        released_times(recorded(m, addr, info), addr, k) == released(recorded(m, addr, info), addr),
        reclaimed(released_times(recorded(m, addr, info), addr, k), addr) == None::<AllocInfo>,
    decreases k,
{
    let x = recorded(m, addr, info);
    lemma_release_once(m, addr, info);
    if k > 1 {
        lemma_release_many(m, addr, info, (k - 1) as nat);
    } else {
        assert(released_times(x, addr, 0) == x);
    }
}

/// A release of an address with no entry hands back nothing and changes
/// nothing.
pub proof fn lemma_release_unknown(m: Map<usize, AllocInfo>, addr: usize)
    requires
        !m.contains_key(addr),
    ensures
        reclaimed(m, addr) == None::<AllocInfo>,
        released(m, addr) == m,
{
    assert(released(m, addr) =~= m);
}

/// A release of the null address, on a well-formed registry, hands back
/// nothing and changes nothing.
pub proof fn lemma_release_null(r: AllocRegistry)
    requires
        r.well_formed(),
    ensures
        reclaimed(r@, 0) == None::<AllocInfo>,
        released(r@, 0) == r@,
{
    lemma_release_unknown(r@, 0);
}

/// The length of the view over a caller's request: empty where the address
/// is null or the length is not positive, else the given length.
pub fn request_view_len(is_null: bool, len: i64) -> (r: usize)
    requires
        !is_null && len > 0 ==> len <= usize::MAX,
    ensures
        r == (if is_null || len <= 0 { 0 } else { len as int }),
{
    if is_null || len <= 0 {
        0
    } else {
        len as usize
    }
}

} // verus!
