//! The partner link registry: who links to whom, and who is synced.
//!
//! Each identity has at most one outgoing link. Two identities are synced
//! when each links to the other; this is worked out from the links and never
//! stored.

use crate::address::{opt_view, Address};
use crate::address_map::{rows_distinct, rows_map, AddressMap};
use crate::error::Error;
use vstd::prelude::*;

verus! {

/// What the registry holds: the outgoing link of each identity that has one,
/// and whether an identity that has a link may replace it.
pub struct RegistryState {
    pub partners: Map<Seq<char>, Seq<char>>,
    pub guarded: bool,
}

/// The links that a list of rows stands for.
pub open spec fn rows_links(rows: Seq<(Address, Address)>) -> Map<Seq<char>, Seq<char>> {
    rows_map(rows).map_values(|partner: Address| partner@)
}

impl RegistryState {
    /// A registry without links.
    pub open spec fn empty(guarded: bool) -> RegistryState {
        RegistryState { partners: Map::empty(), guarded }
    }

    /// The identity that `user` links to, if any.
    pub open spec fn get_partner(self, user: Seq<char>) -> Option<Seq<char>> {
        if self.partners.contains_key(user) {
            Some(self.partners[user])
        } else {
            None
        }
    }

    /// Whether `partner` links to `user`.
    pub open spec fn links_back(self, user: Seq<char>, partner: Seq<char>) -> bool {
        self.partners.contains_key(partner) && self.partners[partner] == user
    }

    /// Whether `user` has a link, and the identity it leads to links back.
    pub open spec fn is_synced(self, user: Seq<char>) -> bool {
        self.partners.contains_key(user) && self.links_back(user, self.partners[user])
    }

    /// Linking `caller` to `partner`: only the caller may, and a guarded
    /// registry refuses a caller who has a link already. Otherwise the
    /// caller's link is written, in place of an earlier one.
    pub open spec fn link(self, invoker: Seq<char>, caller: Seq<char>, partner: Seq<char>) -> Result<
        RegistryState,
        Error,
    > {
        if invoker != caller {
            Err(Error::Unauthorized)
        } else if self.guarded && self.partners.contains_key(caller) {
            Err(Error::AlreadyLinked)
        } else {
            Ok(RegistryState { partners: self.partners.insert(caller, partner), ..self })
        }
    }
}

/// The partner link registry.
pub struct CoupleSync {
    partners: AddressMap<Address>,
    guarded: bool,
}

impl View for CoupleSync {
    type V = RegistryState;

    closed spec fn view(&self) -> RegistryState {
        RegistryState {
            partners: self.partners@.map_values(|partner: Address| partner@),
            guarded: self.guarded,
        }
    }
}

impl CoupleSync {
    /// The registry is one that the operations below have built.
    pub closed spec fn wf(&self) -> bool {
        self.partners.wf()
    }

    /// A registry without links, in which a later link of an identity
    /// replaces its earlier one.
    pub fn new() -> (registry: CoupleSync)
        ensures
            registry.wf(),
            registry@ == RegistryState::empty(false),
    {
        let registry = CoupleSync { partners: AddressMap::new(), guarded: false };
        assert(registry@.partners =~= Map::<Seq<char>, Seq<char>>::empty());
        registry
    }

    /// A registry without links, in which an identity that has a link is
    /// refused another.
    pub fn guarded() -> (registry: CoupleSync)
        ensures
            registry.wf(),
            registry@ == RegistryState::empty(true),
    {
        let registry = CoupleSync { partners: AddressMap::new(), guarded: true };
        assert(registry@.partners =~= Map::<Seq<char>, Seq<char>>::empty());
        registry
    }

    /// The registry that holds the given links, and replaces earlier links
    /// or refuses later ones as `guarded` says. There is none where two rows
    /// give a link of the same identity.
    pub fn restore(links: Vec<(Address, Address)>, guarded: bool) -> (r: Option<CoupleSync>)
        ensures
            r is Some <==> rows_distinct(links@),
            r matches Some(registry) ==> registry.wf() && registry@ == (RegistryState {
                partners: rows_links(links@),
                guarded,
            }),
    {
        match AddressMap::from_rows(links) {
            Some(partners) => Some(CoupleSync { partners, guarded }),
            None => None,
        }
    }

    /// The links that the registry holds, one row for an identity.
    pub fn links(&self) -> (rows: &Vec<(Address, Address)>)
        requires
            self.wf(),
        ensures
            rows_distinct(rows@),
            rows_links(rows@) == self@.partners,
    {
        self.partners.rows()
    }

    /// Whether an identity that has a link is refused another.
    pub fn is_guarded(&self) -> (r: bool)
        ensures
            r == self@.guarded,
    {
        self.guarded
    }

    /// Links `caller` to `partner` on behalf of `invoker`.
    ///
    /// Refused with `Unauthorized` unless `invoker` is `caller`, and in a
    /// guarded registry with `AlreadyLinked` where `caller` has a link. A
    /// refusal changes nothing. Otherwise the link is written and the result
    /// says whether `caller` is synced now: that is when the sync of the two
    /// is to be announced.
    pub fn link_partners(&mut self, invoker: &Address, caller: Address, partner: Address) -> (r:
        Result<bool, Error>)
        requires
            old(self).wf(),
        ensures
            final(self).wf(),
            match old(self)@.link(invoker@, caller@, partner@) {
                Ok(next) => r == Ok::<bool, Error>(next.is_synced(caller@)) && final(self)@ == next,
                Err(e) => r == Err::<bool, Error>(e) && final(self)@ == old(self)@,
            },
    {
        if *invoker != caller {
            return Err(Error::Unauthorized);
        }
        if self.guarded && self.partners.get(&caller).is_some() {
            return Err(Error::AlreadyLinked);
        }
        let ghost before = self@;
        self.partners.insert(caller.clone(), partner.clone());
        proof {
            let next = before.link(invoker@, caller@, partner@)->Ok_0;
            assert(self@.partners =~= next.partners);
        }
        let synced = self.is_synced_internal(&caller, &partner);
        Ok(synced)
    }

    /// Whether `user` is synced: it has a link, and the identity that the
    /// link leads to links back to `user`.
    pub fn is_synced(&self, user: &Address) -> (r: bool)
        requires
            self.wf(),
        ensures
            r == self@.is_synced(user@),
    {
        match self.partners.get(user) {
            Some(partner) => self.is_synced_internal(user, partner),
            None => false,
        }
    }

    /// The identity that `user` links to, if any.
    pub fn get_partner(&self, user: &Address) -> (r: Option<Address>)
        requires
            self.wf(),
        ensures
            opt_view(r) == self@.get_partner(user@),
    {
        match self.partners.get(user) {
            Some(partner) => Some(partner.clone()),
            None => None,
        }
    }

    /// Whether `partner` links to `user`.
    fn is_synced_internal(&self, user: &Address, partner: &Address) -> (r: bool)
        requires
            self.wf(),
        ensures
            r == self@.links_back(user@, partner@),
    {
        match self.partners.get(partner) {
            Some(reverse) => *reverse == *user,
            None => false,
        }
    }
}

/// After one link from `a` to `b` in an empty registry, neither of the two
/// is synced, provided they are two identities: an identity that links to
/// itself is synced at once.
pub proof fn law_one_link_syncs_nobody(guarded: bool, a: Seq<char>, b: Seq<char>)
    requires
        a != b,
    ensures
        RegistryState::empty(guarded).link(a, a, b) is Ok,
        !RegistryState::empty(guarded).link(a, a, b)->Ok_0.is_synced(a),
        !RegistryState::empty(guarded).link(a, a, b)->Ok_0.is_synced(b),
{
}

/// A link syncs its caller exactly when the partner links back already, or
/// is the caller; and it never changes the link of anybody else.
pub proof fn law_link_syncs_when_partner_links_back(
    state: RegistryState,
    a: Seq<char>,
    b: Seq<char>,
)
    requires
        state.link(a, a, b) is Ok,
    ensures
        state.link(a, a, b)->Ok_0.is_synced(a) <==> a == b || state.links_back(a, b),
        state.link(a, a, b)->Ok_0.get_partner(a) == Some(b),
        forall|other: Seq<char>|
            other != a ==> state.link(a, a, b)->Ok_0.get_partner(other) == state.get_partner(
                other,
            ),
{
}

/// After a link from `a` to `b` and then one from `b` to `a`, both are
/// synced, whatever the registry held before. Where links replace earlier
/// ones, both links are accepted.
pub proof fn law_mutual_links_sync_both(state: RegistryState, a: Seq<char>, b: Seq<char>)
    ensures
        !state.guarded ==> state.link(a, a, b) is Ok && state.link(a, a, b)->Ok_0.link(b, b, a)
            is Ok,
        state.link(a, a, b) is Ok && state.link(a, a, b)->Ok_0.link(b, b, a) is Ok ==> {
            let both = state.link(a, a, b)->Ok_0.link(b, b, a)->Ok_0;
            both.is_synced(a) && both.is_synced(b)
        },
{
}

/// After a link from `a` to `b` and then one from `b` to a third identity
/// `c` in an empty registry, neither `a` nor `b` is synced. The third must
/// differ from `a` as well as from `b`; and where an identity that has a link
/// is refused another, `a` must differ from `b`.
pub proof fn law_mismatched_links_sync_nobody(
    guarded: bool,
    a: Seq<char>,
    b: Seq<char>,
    c: Seq<char>,
)
    requires
        b != c,
        a != c,
        guarded ==> a != b,
    ensures
        RegistryState::empty(guarded).link(a, a, b) is Ok,
        RegistryState::empty(guarded).link(a, a, b)->Ok_0.link(b, b, c) is Ok,
        ({
            let both = RegistryState::empty(guarded).link(a, a, b)->Ok_0.link(b, b, c)->Ok_0;
            !both.is_synced(a) && !both.is_synced(b)
        }),
{
}

/// Where an identity that has a link is refused another, a second link of
/// the same caller is refused and the first stays.
pub proof fn law_guarded_link_is_kept(
    state: RegistryState,
    a: Seq<char>,
    b: Seq<char>,
    c: Seq<char>,
)
    requires
        state.guarded,
        state.link(a, a, b) is Ok,
    ensures
        state.link(a, a, b)->Ok_0.link(a, a, c) == Err::<RegistryState, Error>(Error::AlreadyLinked),
{
}

} // verus!
