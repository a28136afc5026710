//! The multi-instance token ledger of one account.
//!
//! A token class is named by a byte-string identifier and holds instances
//! keyed by a nonce: nonce 0 is the fungible instance, a nonce above 0 is an
//! individually tagged unit. Instance metadata is written on first mint of a
//! nonce and never changes afterwards; only the balance of that nonce is
//! mutable.

use vstd::prelude::*;

use crate::address::Address;
use crate::address::bytes_eq;
use crate::bignat::BigNat;

verus! {

/// View of an instance's immutable metadata.
#[verifier::ext_equal]
pub ghost struct MetaV {
    pub creator: Option<Seq<u8>>,
    pub royalties: u64,
    pub attributes: Seq<u8>,
    pub name: Seq<u8>,
    pub hash: Option<Seq<u8>>,
    pub uri: Option<Seq<u8>>,
}

/// View of an optional byte vector.
pub open spec fn opt_bytes_view(o: Option<Vec<u8>>) -> Option<Seq<u8>> {
    match o {
        Some(b) => Some(b@),
        None => None,
    }
}

/// View of an optional address.
pub open spec fn opt_address_view(o: Option<Address>) -> Option<Seq<u8>> {
    match o {
        Some(a) => Some(a@),
        None => None,
    }
}

/// Immutable metadata of one token instance: set on the first mint of its
/// nonce, never overwritten by later mints.
#[derive(Debug)]
pub struct DctInstanceMetadata {
    pub creator: Option<Address>,
    pub royalties: u64,
    pub attributes: Vec<u8>,
    pub name: Vec<u8>,
    pub hash: Option<Vec<u8>>,
    pub uri: Option<Vec<u8>>,
}

impl View for DctInstanceMetadata {
    type V = MetaV;

    open spec fn view(&self) -> MetaV {
        MetaV {
            creator: opt_address_view(self.creator),
            royalties: self.royalties,
            attributes: self.attributes@,
            name: self.name@,
            hash: opt_bytes_view(self.hash),
            uri: opt_bytes_view(self.uri),
        }
    }
}

/// The metadata of an instance nobody tagged: all fields empty.
pub open spec fn meta_default() -> MetaV {
    MetaV {
        creator: None,
        royalties: 0,
        attributes: Seq::empty(),
        name: Seq::empty(),
        hash: None,
        uri: None,
    }
}

impl Default for DctInstanceMetadata {
    /// Empty metadata.
    fn default() -> (r: Self)
        ensures
            r@ == meta_default(),
    {
        let r = DctInstanceMetadata {
            creator: None,
            royalties: 0,
            attributes: Vec::new(),
            name: Vec::new(),
            hash: None,
            uri: None,
        };
        proof {
            assert(r@ =~= meta_default());
        }
        r
    }
}

fn clone_opt_bytes(o: &Option<Vec<u8>>) -> (r: Option<Vec<u8>>)
    ensures
        opt_bytes_view(r) == opt_bytes_view(*o),
{
    match o {
        Some(b) => Some(b.clone()),
        None => None,
    }
}

impl Clone for DctInstanceMetadata {
    /// A clone has the same view.
    fn clone(&self) -> (r: Self)
        ensures
            r@ == self@,
    {
        let r = DctInstanceMetadata {
            creator: match &self.creator {
                Some(a) => Some(a.clone()),
                None => None,
            },
            royalties: self.royalties,
            attributes: self.attributes.clone(),
            name: self.name.clone(),
            hash: clone_opt_bytes(&self.hash),
            uri: clone_opt_bytes(&self.uri),
        };
        proof {
            assert(r@ =~= self@);
        }
        r
    }
}

/// View of one token instance: its balance and its metadata.
#[verifier::ext_equal]
pub ghost struct InstV {
    pub balance: nat,
    pub metadata: MetaV,
}

/// One token instance: the unit (or fungible pool) stored under one nonce.
pub struct DctInstance {
    pub nonce: u64,
    pub balance: BigNat,
    pub metadata: DctInstanceMetadata,
}

impl View for DctInstance {
    type V = InstV;

    open spec fn view(&self) -> InstV {
        InstV { balance: self.balance@, metadata: self.metadata@ }
    }
}

impl Clone for DctInstance {
    /// A clone has the same nonce and view.
    fn clone(&self) -> (r: Self)
        ensures
            r.nonce == self.nonce,
            r@ == self@,
    {
        DctInstance {
            nonce: self.nonce,
            balance: self.balance.clone(),
            metadata: self.metadata.clone(),
        }
    }
}

/// The instance map of a sequence of instances: nonce to instance view, the
/// earliest entry for a nonce taking precedence.
pub open spec fn inst_map(s: Seq<DctInstance>) -> Map<u64, InstV>
    decreases s.len(),
{
    if s.len() == 0 {
        Map::empty()
    } else {
        inst_map(s.drop_first()).insert(s[0].nonce, s[0]@)
    }
}

/// If the first entry with nonce `n` stands at index `i`, the map holds its
/// view under `n`.
proof fn lemma_inst_map_first_match(s: Seq<DctInstance>, n: u64, i: int)
    requires
        0 <= i < s.len(),
        s[i].nonce == n,
        forall|j: int| 0 <= j < i ==> s[j].nonce != n,
    ensures
        inst_map(s).contains_key(n),
        inst_map(s)[n] == s[i]@,
    decreases s.len(),
{
    if i == 0 {
    } else {
        lemma_inst_map_first_match(s.drop_first(), n, i - 1);
    }
}

/// If no entry has nonce `n`, the map has no key `n`.
proof fn lemma_inst_map_absent(s: Seq<DctInstance>, n: u64)
    requires
        forall|j: int| 0 <= j < s.len() ==> s[j].nonce != n,
    ensures
        !inst_map(s).contains_key(n),
    decreases s.len(),
{
    if s.len() > 0 {
        lemma_inst_map_absent(s.drop_first(), n);
    }
}

/// Replacing the first entry of a nonce updates the map at that nonce alone.
proof fn lemma_inst_map_update(s: Seq<DctInstance>, i: int, e: DctInstance)
    requires
        0 <= i < s.len(),
        s[i].nonce == e.nonce,
        forall|j: int| 0 <= j < i ==> s[j].nonce != e.nonce,
    ensures
        inst_map(s.update(i, e)) == inst_map(s).insert(e.nonce, e@),
    decreases s.len(),
{
    if i == 0 {
        assert(s.update(0, e).drop_first() =~= s.drop_first());
        assert(inst_map(s.update(0, e)) =~= inst_map(s).insert(e.nonce, e@));
    } else {
        lemma_inst_map_update(s.drop_first(), i - 1, e);
        assert(s.update(i, e).drop_first() =~= s.drop_first().update(i - 1, e));
        assert(inst_map(s.update(i, e)) =~= inst_map(s).insert(e.nonce, e@));
    }
}

/// Appending an entry with a fresh nonce inserts its view into the map.
proof fn lemma_inst_map_push(s: Seq<DctInstance>, e: DctInstance)
    requires
        forall|j: int| 0 <= j < s.len() ==> s[j].nonce != e.nonce,
    ensures
        inst_map(s.push(e)) == inst_map(s).insert(e.nonce, e@),
    decreases s.len(),
{
    if s.len() == 0 {
        reveal_with_fuel(inst_map, 2);
        assert(s.push(e).drop_first() =~= Seq::<DctInstance>::empty());
        assert(inst_map(s.push(e)) =~= inst_map(s).insert(e.nonce, e@));
    } else {
        lemma_inst_map_push(s.drop_first(), e);
        assert(s.push(e).drop_first() =~= s.drop_first().push(e));
        assert(inst_map(s.push(e)) =~= inst_map(s).insert(e.nonce, e@));
    }
}

/// Entry-wise equal instance sequences have the same map.
proof fn lemma_inst_map_congruent(s1: Seq<DctInstance>, s2: Seq<DctInstance>)
    requires
        s1.len() == s2.len(),
        forall|j: int| 0 <= j < s1.len() ==> s1[j].nonce == s2[j].nonce && s1[j]@ == s2[j]@,
    ensures
        inst_map(s1) == inst_map(s2),
    decreases s1.len(),
{
    if s1.len() > 0 {
        lemma_inst_map_congruent(s1.drop_first(), s2.drop_first());
        assert(inst_map(s1) =~= inst_map(s2));
    }
}

/// Index of the first entry with the given nonce.
fn find_instance_index(entries: &Vec<DctInstance>, nonce: u64) -> (r: Option<usize>)
    ensures
        match r {
            Some(i) => i < entries@.len() && entries@[i as int].nonce == nonce && forall|j: int|
                0 <= j < i ==> entries@[j].nonce != nonce,
            None => forall|j: int| 0 <= j < entries@.len() ==> entries@[j].nonce != nonce,
        },
{
    let mut i: usize = 0;
    while i < entries.len()
        invariant
            i <= entries@.len(),
            forall|j: int| 0 <= j < i ==> entries@[j].nonce != nonce,
        decreases entries@.len() - i,
    {
        if entries[i].nonce == nonce {
            return Some(i);
        }
        i = i + 1;
    }
    None
}

/// The instance store of one token class: a map from nonce to instance.
pub struct DctInstances {
    entries: Vec<DctInstance>,
}

impl View for DctInstances {
    type V = Map<u64, InstV>;

    closed spec fn view(&self) -> Map<u64, InstV> {
        inst_map(self.entries@)
    }
}

impl DctInstances {
    /// Every nonce is stored at most once, as in the keyed map this store
    /// stands for.
    #[verifier::type_invariant]
    spec fn nonces_distinct(self) -> bool {
        forall|j1: int, j2: int|
            0 <= j1 < j2 < self.entries@.len() ==> self.entries@[j1].nonce
                != self.entries@[j2].nonce
    }

    /// A store with no instances.
    pub fn new() -> (r: DctInstances)
        ensures
            r@ == Map::<u64, InstV>::empty(),
    {
        DctInstances { entries: Vec::new() }
    }

    /// The instance stored under a nonce, if any.
    pub fn get_by_nonce(&self, nonce: u64) -> (r: Option<&DctInstance>)
        ensures
            match r {
                Some(inst) => self@.contains_key(nonce) && self@[nonce] == inst@
                    && inst.nonce == nonce,
                None => !self@.contains_key(nonce),
            },
    {
        match find_instance_index(&self.entries, nonce) {
            Some(i) => {
                proof {
                    lemma_inst_map_first_match(self.entries@, nonce, i as int);
                }
                Some(&self.entries[i])
            },
            None => {
                proof {
                    lemma_inst_map_absent(self.entries@, nonce);
                }
                None
            },
        }
    }

    /// Whether the store holds no instance at all.
    pub fn is_empty_dct(&self) -> (r: bool)
        ensures
            r == (self@ == Map::<u64, InstV>::empty()),
    {
        let r = self.entries.len() == 0;
        proof {
            if self.entries@.len() > 0 {
                assert(inst_map(self.entries@).contains_key(self.entries@[0].nonce));
            } else {
                assert(self@ =~= Map::<u64, InstV>::empty());
            }
        }
        r
    }

    /// Inserts or overwrites the balance under a nonce; the metadata is
    /// stored only if the instance did not previously exist.
    pub fn set_balance(&mut self, nonce: u64, value: &BigNat, metadata: DctInstanceMetadata)
        ensures
            final(self)@ == old(self)@.insert(
                nonce,
                InstV {
                    balance: value@,
                    metadata: if old(self)@.contains_key(nonce) {
                        old(self)@[nonce].metadata
                    } else {
                        metadata@
                    },
                },
            ),
    {
        proof {
            use_type_invariant(&*self);
        }
        let ghost es0 = self.entries@;
        let mut entries: Vec<DctInstance> = Vec::new();
        core::mem::swap(&mut entries, &mut self.entries);
        match find_instance_index(&entries, nonce) {
            Some(i) => {
                proof {
                    lemma_inst_map_first_match(es0, nonce, i as int);
                }
                let entry = DctInstance {
                    nonce,
                    balance: value.clone(),
                    metadata: entries[i].metadata.clone(),
                };
                proof {
                    lemma_inst_map_update(es0, i as int, entry);
                }
                entries[i] = entry;
                proof {
                    assert(forall|j: int|
                        0 <= j < entries@.len() ==> entries@[j].nonce == es0[j].nonce);
                }
            },
            None => {
                proof {
                    lemma_inst_map_absent(es0, nonce);
                }
                let entry = DctInstance { nonce, balance: value.clone(), metadata };
                proof {
                    lemma_inst_map_push(es0, entry);
                }
                entries.push(entry);
            },
        }
        self.entries = entries;
    }

    /// Credits the balance under a nonce, creating the instance with the
    /// given metadata if absent; existing metadata is left untouched.
    pub fn increase_balance(&mut self, nonce: u64, delta: &BigNat, metadata: DctInstanceMetadata)
        ensures
            final(self)@ == old(self)@.insert(
                nonce,
                if old(self)@.contains_key(nonce) {
                    InstV {
                        balance: old(self)@[nonce].balance + delta@,
                        metadata: old(self)@[nonce].metadata,
                    }
                } else {
                    InstV { balance: delta@, metadata: metadata@ }
                },
            ),
    {
        proof {
            use_type_invariant(&*self);
        }
        let ghost es0 = self.entries@;
        let mut entries: Vec<DctInstance> = Vec::new();
        core::mem::swap(&mut entries, &mut self.entries);
        match find_instance_index(&entries, nonce) {
            Some(i) => {
                proof {
                    lemma_inst_map_first_match(es0, nonce, i as int);
                }
                let entry = DctInstance {
                    nonce,
                    balance: entries[i].balance.add(delta),
                    metadata: entries[i].metadata.clone(),
                };
                proof {
                    lemma_inst_map_update(es0, i as int, entry);
                }
                entries[i] = entry;
                proof {
                    assert(forall|j: int|
                        0 <= j < entries@.len() ==> entries@[j].nonce == es0[j].nonce);
                }
            },
            None => {
                proof {
                    lemma_inst_map_absent(es0, nonce);
                }
                let entry = DctInstance { nonce, balance: delta.clone(), metadata };
                proof {
                    lemma_inst_map_push(es0, entry);
                }
                entries.push(entry);
            },
        }
        self.entries = entries;
    }

    /// The stored instances, each nonce exactly once, for serialization.
    pub fn entries(&self) -> (r: &Vec<DctInstance>)
        ensures
            inst_map(r@) == self@,
            forall|j1: int, j2: int| 0 <= j1 < j2 < r@.len() ==> r@[j1].nonce != r@[j2].nonce,
    {
        proof {
            use_type_invariant(&*self);
        }
        &self.entries
    }
}

impl Clone for DctInstances {
    /// A clone has the same view.
    fn clone(&self) -> (r: Self)
        ensures
            r@ == self@,
    {
        let mut entries: Vec<DctInstance> = Vec::new();
        let mut i: usize = 0;
        while i < self.entries.len()
            invariant
                i <= self.entries@.len(),
                entries@.len() == i,
                forall|j: int| 0 <= j < i ==> entries@[j].nonce == self.entries@[j].nonce
                    && entries@[j]@ == self.entries@[j]@,
            decreases self.entries@.len() - i,
        {
            entries.push(self.entries[i].clone());
            i = i + 1;
        }
        proof {
            use_type_invariant(&*self);
            lemma_inst_map_congruent(entries@, self.entries@);
        }
        DctInstances { entries }
    }
}


/// The set of role names (mint, burn, ...) granted to an account for one
/// token identifier.
pub struct DctRoles {
    roles: Vec<Vec<u8>>,
}

impl View for DctRoles {
    type V = Seq<Seq<u8>>;

    closed spec fn view(&self) -> Seq<Seq<u8>> {
        self.roles@.map_values(|r: Vec<u8>| r@)
    }
}

impl DctRoles {
    /// No roles.
    pub fn new_empty() -> (r: DctRoles)
        ensures
            r@ == Seq::<Seq<u8>>::empty(),
    {
        let r = DctRoles { roles: Vec::new() };
        proof {
            assert(r@ =~= Seq::<Seq<u8>>::empty());
        }
        r
    }

    /// The given role names.
    pub fn new(roles: Vec<Vec<u8>>) -> (r: DctRoles)
        ensures
            r@ == roles@.map_values(|r: Vec<u8>| r@),
    {
        DctRoles { roles }
    }

    /// A copy of the role names.
    pub fn get(&self) -> (r: Vec<Vec<u8>>)
        ensures
            r@.map_values(|r: Vec<u8>| r@) == self@,
    {
        let mut out: Vec<Vec<u8>> = Vec::new();
        let mut i: usize = 0;
        while i < self.roles.len()
            invariant
                i <= self.roles@.len(),
                out@.len() == i,
                forall|j: int| 0 <= j < i ==> out@[j]@ == self.roles@[j]@,
            decreases self.roles@.len() - i,
        {
            out.push(self.roles[i].clone());
            i = i + 1;
        }
        proof {
            assert(out@.map_values(|r: Vec<u8>| r@) =~= self@);
        }
        out
    }

    /// Whether no role is granted.
    pub fn is_empty(&self) -> (r: bool)
        ensures
            r == (self@.len() == 0),
    {
        self.roles.len() == 0
    }
}

impl Clone for DctRoles {
    /// A clone has the same view.
    fn clone(&self) -> (r: Self)
        ensures
            r@ == self@,
    {
        let roles = self.get();
        DctRoles { roles }
    }
}

/// View of the full record of one token class in one account.
#[verifier::ext_equal]
pub ghost struct DctDataV {
    pub token_identifier: Seq<u8>,
    pub instances: Map<u64, InstV>,
    pub last_nonce: u64,
    pub roles: Seq<Seq<u8>>,
    pub frozen: bool,
}

/// Everything one account holds of one token class: its instances, the
/// high-water nonce, the granted roles and the freeze flag.
pub struct DctData {
    pub token_identifier: Vec<u8>,
    pub instances: DctInstances,
    pub last_nonce: u64,
    pub roles: DctRoles,
    pub frozen: bool,
}

impl View for DctData {
    type V = DctDataV;

    open spec fn view(&self) -> DctDataV {
        DctDataV {
            token_identifier: self.token_identifier@,
            instances: self.instances@,
            last_nonce: self.last_nonce,
            roles: self.roles@,
            frozen: self.frozen,
        }
    }
}

/// The record of a token class nobody touched.
pub open spec fn dct_data_default() -> DctDataV {
    DctDataV {
        token_identifier: Seq::empty(),
        instances: Map::empty(),
        last_nonce: 0,
        roles: Seq::empty(),
        frozen: false,
    }
}

/// The record a balance operation creates for an unseen token identifier.
pub open spec fn dct_data_fresh(id: Seq<u8>, last_nonce: u64) -> DctDataV {
    DctDataV {
        token_identifier: id,
        instances: Map::empty(),
        last_nonce: last_nonce,
        roles: Seq::empty(),
        frozen: false,
    }
}

impl DctData {
    /// An untouched record, as [`dct_data_default`].
    pub fn default_data() -> (r: DctData)
        ensures
            r@ == dct_data_default(),
    {
        let r = DctData {
            token_identifier: Vec::new(),
            instances: DctInstances::new(),
            last_nonce: 0,
            roles: DctRoles::new_empty(),
            frozen: false,
        };
        proof {
            assert(r@ =~= dct_data_default());
        }
        r
    }

    /// Whether the record carries no information at all.
    pub fn is_empty(&self) -> (r: bool)
        ensures
            r == (self@.instances == Map::<u64, InstV>::empty() && self@.last_nonce == 0
                && self@.roles.len() == 0 && !self@.frozen),
    {
        self.instances.is_empty_dct() && self.last_nonce == 0 && self.roles.is_empty()
            && !self.frozen
    }

    /// A copy of the granted role names.
    pub fn get_roles(&self) -> (r: Vec<Vec<u8>>)
        ensures
            r@.map_values(|r: Vec<u8>| r@) == self@.roles,
    {
        self.roles.get()
    }
}

impl Clone for DctData {
    /// A clone has the same view.
    fn clone(&self) -> (r: Self)
        ensures
            r@ == self@,
    {
        let r = DctData {
            token_identifier: self.token_identifier.clone(),
            instances: self.instances.clone(),
            last_nonce: self.last_nonce,
            roles: self.roles.clone(),
            frozen: self.frozen,
        };
        proof {
            assert(r@ =~= self@);
        }
        r
    }
}

/// The token map of a sequence of records: identifier to record view, the
/// earliest entry for an identifier taking precedence.
pub open spec fn dct_map(s: Seq<DctData>) -> Map<Seq<u8>, DctDataV>
    decreases s.len(),
{
    if s.len() == 0 {
        Map::empty()
    } else {
        dct_map(s.drop_first()).insert(s[0].token_identifier@, s[0]@)
    }
}

/// If the first entry with identifier `id` stands at index `i`, the map holds
/// its view under `id`.
proof fn lemma_dct_map_first_match(s: Seq<DctData>, id: Seq<u8>, i: int)
    requires
        0 <= i < s.len(),
        s[i].token_identifier@ == id,
        forall|j: int| 0 <= j < i ==> s[j].token_identifier@ != id,
    ensures
        dct_map(s).contains_key(id),
        dct_map(s)[id] == s[i]@,
    decreases s.len(),
{
    if i == 0 {
    } else {
        lemma_dct_map_first_match(s.drop_first(), id, i - 1);
    }
}

/// If no entry has identifier `id`, the map has no key `id`.
proof fn lemma_dct_map_absent(s: Seq<DctData>, id: Seq<u8>)
    requires
        forall|j: int| 0 <= j < s.len() ==> s[j].token_identifier@ != id,
    ensures
        !dct_map(s).contains_key(id),
    decreases s.len(),
{
    if s.len() > 0 {
        lemma_dct_map_absent(s.drop_first(), id);
    }
}

/// Replacing the first entry of an identifier updates the map there alone.
proof fn lemma_dct_map_update(s: Seq<DctData>, i: int, e: DctData)
    requires
        0 <= i < s.len(),
        s[i].token_identifier@ == e.token_identifier@,
        forall|j: int| 0 <= j < i ==> s[j].token_identifier@ != e.token_identifier@,
    ensures
        dct_map(s.update(i, e)) == dct_map(s).insert(e.token_identifier@, e@),
    decreases s.len(),
{
    if i == 0 {
        assert(s.update(0, e).drop_first() =~= s.drop_first());
        assert(dct_map(s.update(0, e)) =~= dct_map(s).insert(e.token_identifier@, e@));
    } else {
        lemma_dct_map_update(s.drop_first(), i - 1, e);
        assert(s.update(i, e).drop_first() =~= s.drop_first().update(i - 1, e));
        assert(dct_map(s.update(i, e)) =~= dct_map(s).insert(e.token_identifier@, e@));
    }
}

/// Appending an entry with a fresh identifier inserts its view into the map.
proof fn lemma_dct_map_push(s: Seq<DctData>, e: DctData)
    requires
        forall|j: int| 0 <= j < s.len() ==> s[j].token_identifier@ != e.token_identifier@,
    ensures
        dct_map(s.push(e)) == dct_map(s).insert(e.token_identifier@, e@),
    decreases s.len(),
{
    if s.len() == 0 {
        reveal_with_fuel(dct_map, 2);
        assert(s.push(e).drop_first() =~= Seq::<DctData>::empty());
        assert(dct_map(s.push(e)) =~= dct_map(s).insert(e.token_identifier@, e@));
    } else {
        lemma_dct_map_push(s.drop_first(), e);
        assert(s.push(e).drop_first() =~= s.drop_first().push(e));
        assert(dct_map(s.push(e)) =~= dct_map(s).insert(e.token_identifier@, e@));
    }
}

/// Entry-wise equal record sequences have the same map.
proof fn lemma_dct_map_congruent(s1: Seq<DctData>, s2: Seq<DctData>)
    requires
        s1.len() == s2.len(),
        forall|j: int| 0 <= j < s1.len() ==> s1[j].token_identifier@ == s2[j].token_identifier@
            && s1[j]@ == s2[j]@,
    ensures
        dct_map(s1) == dct_map(s2),
    decreases s1.len(),
{
    if s1.len() > 0 {
        lemma_dct_map_congruent(s1.drop_first(), s2.drop_first());
        assert(dct_map(s1) =~= dct_map(s2));
    }
}

/// Balance of a nonce inside one token record: zero if the nonce is absent.
pub open spec fn dct_balance_in(d: DctDataV, nonce: u64) -> nat {
    if d.instances.contains_key(nonce) {
        d.instances[nonce].balance
    } else {
        0
    }
}

/// Balance of (identifier, nonce) in a token map: zero if either is absent,
/// never an error.
pub open spec fn token_balance_of(m: Map<Seq<u8>, DctDataV>, id: Seq<u8>, nonce: u64) -> nat {
    if m.contains_key(id) {
        dct_balance_in(m[id], nonce)
    } else {
        0
    }
}

/// A token record after a balance credit: the nonce's balance grows by
/// `amount`; its metadata is written only if the nonce was absent; the
/// record's `last_nonce` high-water mark is raised to the nonce if it was
/// below it.
pub open spec fn dct_data_with_increase(d: DctDataV, nonce: u64, amount: nat, m: MetaV) -> DctDataV {
    DctDataV {
        last_nonce: if nonce > d.last_nonce {
            nonce
        } else {
            d.last_nonce
        },
        instances: d.instances.insert(
            nonce,
            if d.instances.contains_key(nonce) {
                InstV {
                    balance: (d.instances[nonce].balance + amount) as nat,
                    metadata: d.instances[nonce].metadata,
                }
            } else {
                InstV { balance: amount, metadata: m }
            },
        ),
        ..d
    }
}

/// A token record after a balance overwrite: the nonce's balance becomes
/// `amount`; its metadata is written only if the nonce was absent; the
/// record's `last_nonce` high-water mark is raised to the nonce if it was
/// below it.
pub open spec fn dct_data_with_set(d: DctDataV, nonce: u64, amount: nat, m: MetaV) -> DctDataV {
    DctDataV {
        last_nonce: if nonce > d.last_nonce {
            nonce
        } else {
            d.last_nonce
        },
        instances: d.instances.insert(
            nonce,
            InstV {
                balance: amount,
                metadata: if d.instances.contains_key(nonce) {
                    d.instances[nonce].metadata
                } else {
                    m
                },
            },
        ),
        ..d
    }
}

/// Removing the only entry of an identifier removes exactly that identifier
/// from the map.
proof fn lemma_dct_map_remove(s: Seq<DctData>, j: int)
    requires
        0 <= j < s.len(),
        forall|x: int|
            0 <= x < s.len() && x != j ==> s[x].token_identifier@ != s[j].token_identifier@,
    ensures
        dct_map(s.remove(j)) == dct_map(s).remove(s[j].token_identifier@),
    decreases s.len(),
{
    if j == 0 {
        assert(s.remove(0) =~= s.drop_first());
        lemma_dct_map_absent(s.drop_first(), s[0].token_identifier@);
        assert(dct_map(s.remove(0)) =~= dct_map(s).remove(s[0].token_identifier@));
    } else {
        lemma_dct_map_remove(s.drop_first(), j - 1);
        assert(s.remove(j).drop_first() =~= s.drop_first().remove(j - 1));
        assert(s.remove(j)[0] == s[0]);
        assert(dct_map(s.remove(j)) =~= dct_map(s).remove(s[j].token_identifier@));
    }
}

/// Index of the first record with the given identifier.
fn find_record_index(entries: &Vec<DctData>, identifier: &Vec<u8>) -> (r: Option<usize>)
    ensures
        match r {
            Some(i) => i < entries@.len() && entries@[i as int].token_identifier@ == identifier@
                && forall|j: int| 0 <= j < i ==> entries@[j].token_identifier@ != identifier@,
            None => forall|j: int|
                0 <= j < entries@.len() ==> entries@[j].token_identifier@ != identifier@,
        },
{
    let mut i: usize = 0;
    while i < entries.len()
        invariant
            i <= entries@.len(),
            forall|j: int| 0 <= j < i ==> entries@[j].token_identifier@ != identifier@,
        decreases entries@.len() - i,
    {
        if bytes_eq(&entries[i].token_identifier, identifier) {
            return Some(i);
        }
        i = i + 1;
    }
    None
}

/// The token ledger of one account: a map from token identifier to the
/// account's record of that token class.
pub struct AccountDct {
    entries: Vec<DctData>,
}

impl View for AccountDct {
    type V = Map<Seq<u8>, DctDataV>;

    closed spec fn view(&self) -> Map<Seq<u8>, DctDataV> {
        dct_map(self.entries@)
    }
}

impl AccountDct {
    /// Every token identifier is stored at most once, as in the keyed map
    /// this ledger stands for.
    #[verifier::type_invariant]
    spec fn identifiers_distinct(self) -> bool {
        forall|j1: int, j2: int|
            0 <= j1 < j2 < self.entries@.len() ==> self.entries@[j1].token_identifier@
                != self.entries@[j2].token_identifier@
    }

    /// A ledger that holds no token.
    pub fn new_empty() -> (r: AccountDct)
        ensures
            r@ == Map::<Seq<u8>, DctDataV>::empty(),
    {
        AccountDct { entries: Vec::new() }
    }

    /// A ledger from raw records; the earliest record of an identifier wins,
    /// as in a keyed map, and later records of an identifier already seen are
    /// dropped.
    pub fn new_from_raw_map(entries: Vec<DctData>) -> (r: AccountDct)
        ensures
            r@ == dct_map(entries@),
    {
        let mut out: Vec<DctData> = Vec::new();
        let mut i: usize = entries.len();
        proof {
            assert(entries@.skip(i as int) =~= Seq::<DctData>::empty());
        }
        while i > 0
            invariant
                i <= entries@.len(),
                dct_map(out@) == dct_map(entries@.skip(i as int)),
                forall|j1: int, j2: int|
                    0 <= j1 < j2 < out@.len() ==> out@[j1].token_identifier@
                        != out@[j2].token_identifier@,
            decreases i,
        {
            i = i - 1;
            let entry = entries[i].clone();
            let ghost out0 = out@;
            match find_record_index(&out, &entry.token_identifier) {
                Some(j) => {
                    proof {
                        lemma_dct_map_remove(out@, j as int);
                    }
                    out.remove(j);
                    proof {
                        assert forall|x: int|
                            0 <= x < out@.len() implies out@[x].token_identifier@
                            != entry.token_identifier@ by {
                            if x < j {
                                assert(out@[x] == out0[x]);
                            } else {
                                assert(out@[x] == out0[x + 1]);
                            }
                        }
                        assert forall|j1: int, j2: int|
                            0 <= j1 < j2 < out@.len() implies out@[j1].token_identifier@
                            != out@[j2].token_identifier@ by {
                            if j2 < j {
                                assert(out@[j1] == out0[j1] && out@[j2] == out0[j2]);
                            } else if j1 < j {
                                assert(out@[j1] == out0[j1] && out@[j2] == out0[j2 + 1]);
                            } else {
                                assert(out@[j1] == out0[j1 + 1] && out@[j2] == out0[j2 + 1]);
                            }
                        }
                    }
                },
                None => {},
            }
            let ghost pruned = out@;
            out.insert(0, entry);
            proof {
                assert(out@.drop_first() =~= pruned);
                assert(out@[0] == entry);
                assert(dct_map(pruned).insert(entry.token_identifier@, entry@) =~= dct_map(
                    out0,
                ).insert(entry.token_identifier@, entry@));
                assert(entries@.skip(i as int).drop_first() =~= entries@.skip(i as int + 1));
                assert(entries@.skip(i as int)[0] == entries@[i as int]);
                assert(dct_map(out@) =~= dct_map(entries@.skip(i as int)));
                assert forall|j1: int, j2: int|
                    0 <= j1 < j2 < out@.len() implies out@[j1].token_identifier@
                    != out@[j2].token_identifier@ by {
                    if j1 == 0 {
                        assert(out@[j2] == pruned[j2 - 1]);
                    } else {
                        assert(out@[j1] == pruned[j1 - 1]);
                        assert(out@[j2] == pruned[j2 - 1]);
                    }
                }
            }
        }
        proof {
            assert(entries@.skip(0) =~= entries@);
        }
        AccountDct { entries: out }
    }

    /// The record of a token identifier, if the account ever touched it.
    pub fn get_by_identifier(&self, identifier: &Vec<u8>) -> (r: Option<&DctData>)
        ensures
            match r {
                Some(d) => self@.contains_key(identifier@) && self@[identifier@] == d@,
                None => !self@.contains_key(identifier@),
            },
    {
        match find_record_index(&self.entries, identifier) {
            Some(i) => {
                proof {
                    lemma_dct_map_first_match(self.entries@, identifier@, i as int);
                }
                Some(&self.entries[i])
            },
            None => {
                proof {
                    lemma_dct_map_absent(self.entries@, identifier@);
                }
                None
            },
        }
    }

    /// A copy of the record of a token identifier, or the untouched record.
    pub fn get_by_identifier_or_default(&self, identifier: &Vec<u8>) -> (r: DctData)
        ensures
            r@ == if self@.contains_key(identifier@) {
                self@[identifier@]
            } else {
                dct_data_default()
            },
    {
        match self.get_by_identifier(identifier) {
            Some(d) => d.clone(),
            None => DctData::default_data(),
        }
    }

    /// A copy of the roles granted for a token identifier; empty if the
    /// account never touched it.
    pub fn get_roles(&self, identifier: &Vec<u8>) -> (r: Vec<Vec<u8>>)
        ensures
            r@.map_values(|r: Vec<u8>| r@) == if self@.contains_key(identifier@) {
                self@[identifier@].roles
            } else {
                Seq::<Seq<u8>>::empty()
            },
    {
        self.get_by_identifier_or_default(identifier).get_roles()
    }

    /// Replaces the full role set for a token identifier, creating its record
    /// if absent.
    pub fn set_roles(&mut self, token_identifier: Vec<u8>, roles: Vec<Vec<u8>>)
        ensures
            final(self)@ == old(self)@.insert(
                token_identifier@,
                (DctDataV {
                    roles: roles@.map_values(|r: Vec<u8>| r@),
                    ..(if old(self)@.contains_key(token_identifier@) {
                        old(self)@[token_identifier@]
                    } else {
                        dct_data_fresh(token_identifier@, 0)
                    })
                }),
            ),
    {
        proof {
            use_type_invariant(&*self);
        }
        let ghost es0 = self.entries@;
        let mut entries: Vec<DctData> = Vec::new();
        core::mem::swap(&mut entries, &mut self.entries);
        match find_record_index(&entries, &token_identifier) {
            Some(i) => {
                proof {
                    lemma_dct_map_first_match(es0, token_identifier@, i as int);
                }
                let mut entry = entries[i].clone();
                entry.roles = DctRoles::new(roles);
                proof {
                    lemma_dct_map_update(es0, i as int, entry);
                }
                entries[i] = entry;
                proof {
                    assert(forall|j: int|
                        0 <= j < entries@.len() ==> entries@[j].token_identifier@
                            == es0[j].token_identifier@);
                }
            },
            None => {
                proof {
                    lemma_dct_map_absent(es0, token_identifier@);
                }
                let entry = DctData {
                    token_identifier,
                    instances: DctInstances::new(),
                    last_nonce: 0,
                    roles: DctRoles::new(roles),
                    frozen: false,
                };
                proof {
                    lemma_dct_map_push(es0, entry);
                    assert(entry@ =~= (DctDataV {
                        roles: roles@.map_values(|r: Vec<u8>| r@),
                        ..dct_data_fresh(entry.token_identifier@, 0)
                    }));
                }
                entries.push(entry);
            },
        }
        self.entries = entries;
    }

    /// Credits `value` onto (identifier, nonce), creating the record and the
    /// instance as needed; existing instance metadata is left untouched, and
    /// `last_nonce` records the high-water mark of minted nonces.
    pub fn increase_balance(
        &mut self,
        token_identifier: Vec<u8>,
        nonce: u64,
        value: &BigNat,
        metadata: DctInstanceMetadata,
    )
        ensures
            final(self)@ == old(self)@.insert(
                token_identifier@,
                dct_data_with_increase(
                    if old(self)@.contains_key(token_identifier@) {
                        old(self)@[token_identifier@]
                    } else {
                        dct_data_fresh(token_identifier@, 0)
                    },
                    nonce,
                    value@,
                    metadata@,
                ),
            ),
    {
        proof {
            use_type_invariant(&*self);
        }
        let ghost es0 = self.entries@;
        let mut entries: Vec<DctData> = Vec::new();
        core::mem::swap(&mut entries, &mut self.entries);
        match find_record_index(&entries, &token_identifier) {
            Some(i) => {
                proof {
                    lemma_dct_map_first_match(es0, token_identifier@, i as int);
                }
                let mut entry = entries[i].clone();
                if entry.last_nonce < nonce {
                    entry.last_nonce = nonce;
                }
                entry.instances.increase_balance(nonce, value, metadata);
                proof {
                    lemma_dct_map_update(es0, i as int, entry);
                    assert(entry@ =~= dct_data_with_increase(
                        old(self)@[token_identifier@],
                        nonce,
                        value@,
                        metadata@,
                    ));
                }
                entries[i] = entry;
                proof {
                    assert(forall|j: int|
                        0 <= j < entries@.len() ==> entries@[j].token_identifier@
                            == es0[j].token_identifier@);
                }
            },
            None => {
                proof {
                    lemma_dct_map_absent(es0, token_identifier@);
                }
                let mut entry = DctData {
                    token_identifier,
                    instances: DctInstances::new(),
                    last_nonce: nonce,
                    roles: DctRoles::new_empty(),
                    frozen: false,
                };
                entry.instances.increase_balance(nonce, value, metadata);
                proof {
                    lemma_dct_map_push(es0, entry);
                    assert(entry@ =~= dct_data_with_increase(
                        dct_data_fresh(entry.token_identifier@, 0),
                        nonce,
                        value@,
                        metadata@,
                    ));
                }
                entries.push(entry);
            },
        }
        self.entries = entries;
    }

    /// Overwrites the balance of (identifier, nonce), creating the record and
    /// the instance as needed; existing instance metadata is left untouched,
    /// and `last_nonce` records the high-water mark of nonces seen.
    pub fn set_dct_balance(
        &mut self,
        token_identifier: Vec<u8>,
        nonce: u64,
        value: &BigNat,
        metadata: DctInstanceMetadata,
    )
        ensures
            final(self)@ == old(self)@.insert(
                token_identifier@,
                dct_data_with_set(
                    if old(self)@.contains_key(token_identifier@) {
                        old(self)@[token_identifier@]
                    } else {
                        dct_data_fresh(token_identifier@, 0)
                    },
                    nonce,
                    value@,
                    metadata@,
                ),
            ),
    {
        proof {
            use_type_invariant(&*self);
        }
        let ghost es0 = self.entries@;
        let mut entries: Vec<DctData> = Vec::new();
        core::mem::swap(&mut entries, &mut self.entries);
        match find_record_index(&entries, &token_identifier) {
            Some(i) => {
                proof {
                    lemma_dct_map_first_match(es0, token_identifier@, i as int);
                }
                let mut entry = entries[i].clone();
                if entry.last_nonce < nonce {
                    entry.last_nonce = nonce;
                }
                entry.instances.set_balance(nonce, value, metadata);
                proof {
                    lemma_dct_map_update(es0, i as int, entry);
                    assert(entry@ =~= dct_data_with_set(
                        old(self)@[token_identifier@],
                        nonce,
                        value@,
                        metadata@,
                    ));
                }
                entries[i] = entry;
                proof {
                    assert(forall|j: int|
                        0 <= j < entries@.len() ==> entries@[j].token_identifier@
                            == es0[j].token_identifier@);
                }
            },
            None => {
                proof {
                    lemma_dct_map_absent(es0, token_identifier@);
                }
                let mut entry = DctData {
                    token_identifier,
                    instances: DctInstances::new(),
                    last_nonce: nonce,
                    roles: DctRoles::new_empty(),
                    frozen: false,
                };
                entry.instances.set_balance(nonce, value, metadata);
                proof {
                    lemma_dct_map_push(es0, entry);
                    assert(entry@ =~= dct_data_with_set(
                        dct_data_fresh(entry.token_identifier@, 0),
                        nonce,
                        value@,
                        metadata@,
                    ));
                }
                entries.push(entry);
            },
        }
        self.entries = entries;
    }

    /// Balance of (identifier, nonce): zero if either is absent, never an
    /// error.
    pub fn get_dct_balance(&self, token_identifier: &Vec<u8>, nonce: u64) -> (r: BigNat)
        ensures
            r@ == token_balance_of(self@, token_identifier@, nonce),
    {
        match self.get_by_identifier(token_identifier) {
            Some(d) => match d.instances.get_by_nonce(nonce) {
                Some(inst) => inst.balance.clone(),
                None => BigNat::zero(),
            },
            None => BigNat::zero(),
        }
    }

    /// The stored records, each identifier exactly once, for serialization.
    pub fn iter(&self) -> (r: &Vec<DctData>)
        ensures
            dct_map(r@) == self@,
            forall|j1: int, j2: int|
                0 <= j1 < j2 < r@.len() ==> r@[j1].token_identifier@ != r@[j2].token_identifier@,
    {
        proof {
            use_type_invariant(&*self);
        }
        &self.entries
    }
}

impl Clone for AccountDct {
    /// A clone has the same view.
    fn clone(&self) -> (r: Self)
        ensures
            r@ == self@,
    {
        let mut entries: Vec<DctData> = Vec::new();
        let mut i: usize = 0;
        while i < self.entries.len()
            invariant
                i <= self.entries@.len(),
                entries@.len() == i,
                forall|j: int| 0 <= j < i ==> entries@[j].token_identifier@
                    == self.entries@[j].token_identifier@ && entries@[j]@ == self.entries@[j]@,
            decreases self.entries@.len() - i,
        {
            entries.push(self.entries[i].clone());
            i = i + 1;
        }
        proof {
            use_type_invariant(&*self);
            lemma_dct_map_congruent(entries@, self.entries@);
        }
        AccountDct { entries }
    }
}

} // verus!
