//! The registry engine: all state and every public operation.
//!
//! The host hands each operation the authenticated caller and, where an
//! operation writes a timestamp, the current time; the engine validates
//! before it mutates, so a failed operation leaves the state untouched.

use vstd::prelude::*;

use crate::model::add_admin_spec;
use crate::model::buy_land_spec;
use crate::model::consistent_listings;
use crate::model::has_land;
use crate::model::has_listing;
use crate::model::land_at;
use crate::model::land_index;
use crate::model::lemma_land_index_unique;
use crate::model::lemma_listing_index_unique;
use crate::model::list_for_sale_spec;
use crate::model::listing_index;
use crate::model::raised_next_id;
use crate::model::register_land_spec;
use crate::model::remove_from_sale_spec;
use crate::model::remove_land_seq;
use crate::model::remove_land_spec;
use crate::model::remove_listing;
use crate::model::restorable;
use crate::model::restore_lands_spec;
use crate::model::transfer_land_spec;
use crate::model::transferred;
use crate::model::unique_land_ids;
use crate::model::unique_listing_ids;
use crate::model::update_land_metadata_spec;
use crate::model::RegistryView;
use crate::spatial::check_land_overlap;
use crate::spatial::coordinates_overlap;
use crate::spatial::validate_coordinates;
use crate::spatial::validate_dimensions;
use crate::text::str_is_blank;
use crate::types::LandId;
use crate::types::LandInfo;
use crate::types::LandRegistration;
use crate::types::LandRegistryError;
use crate::types::MarketplaceListing;
use crate::types::PrincipalId;
use crate::types::Price;
use crate::types::Timestamp;
use crate::types::TransactionRecord;
use crate::types::TransactionType;
use crate::types::NO_SENDER;

verus! {

/// The whole registry: the authoritative land store, the marketplace,
/// the ledger, the identifier counter, and the admin set.  The ownership
/// and coordinate indices are derived from the store (see
/// [`crate::model::owner_holdings`] and [`crate::model::coordinate_index`]),
/// so they can never disagree with it.
pub struct RegistryState {
    pub lands: Vec<LandInfo>,
    pub listings: Vec<MarketplaceListing>,
    pub ledger: Vec<TransactionRecord>,
    pub next_id: LandId,
    pub admins: Vec<PrincipalId>,
}

impl View for RegistryState {
    type V = RegistryView;

    open spec fn view(&self) -> RegistryView {
        RegistryView {
            lands: self.lands.deep_view(),
            listings: self.listings.deep_view(),
            ledger: self.ledger@,
            next_id: self.next_id,
            admins: self.admins@,
        }
    }
}

/// Position of the parcel with identifier `id`, if any.
fn find_land_idx(lands: &Vec<LandInfo>, id: LandId) -> (r: Option<usize>)
    ensures
        match r {
            Option::Some(i) => 0 <= i < lands@.len() && lands.deep_view()[i as int].id == id
                && has_land(lands.deep_view(), id),
            Option::None => !has_land(lands.deep_view(), id),
        },
{
    let mut i: usize = 0;
    while i < lands.len()
        invariant
            0 <= i <= lands@.len(),
            forall|k: int| 0 <= k < i ==> (#[trigger] lands.deep_view()[k]).id != id,
        decreases lands@.len() - i,
    {
        if lands[i].id == id {
            return Option::Some(i);
        }
        i = i + 1;
    }
    Option::None
}

/// Position of the listing for parcel `id`, if any.
fn find_listing_idx(listings: &Vec<MarketplaceListing>, id: LandId) -> (r: Option<usize>)
    ensures
        match r {
            Option::Some(i) => 0 <= i < listings@.len() && listings.deep_view()[i as int].land_id
                == id && has_listing(listings.deep_view(), id),
            Option::None => !has_listing(listings.deep_view(), id),
        },
{
    let mut i: usize = 0;
    while i < listings.len()
        invariant
            0 <= i <= listings@.len(),
            forall|k: int| 0 <= k < i ==> (#[trigger] listings.deep_view()[k]).land_id != id,
        decreases listings@.len() - i,
    {
        if listings[i].land_id == id {
            return Option::Some(i);
        }
        i = i + 1;
    }
    Option::None
}

/// Copies every record of a land store.
fn clone_lands(v: &Vec<LandInfo>) -> (r: Vec<LandInfo>)
    ensures
        r.deep_view() == v.deep_view(),
{
    let mut r: Vec<LandInfo> = Vec::new();
    let mut i: usize = 0;
    while i < v.len()
        invariant
            0 <= i <= v@.len(),
            r@.len() == i,
            forall|k: int| 0 <= k < i ==> #[trigger] r@[k].deep_view() == v@[k].deep_view(),
        decreases v@.len() - i,
    {
        let l = v[i].clone();
        assert(l.deep_view() == v@[i as int].deep_view());
        r.push(l);
        i = i + 1;
    }
    assert(r.deep_view() =~= v.deep_view());
    r
}

/// True iff `p` is one of the principals in `v`.
fn contains_principal(v: &Vec<PrincipalId>, p: PrincipalId) -> (r: bool)
    ensures
        r == v@.contains(p),
{
    let mut i: usize = 0;
    while i < v.len()
        invariant
            0 <= i <= v@.len(),
            forall|k: int| 0 <= k < i ==> v@[k] != p,
        decreases v@.len() - i,
    {
        if v[i] == p {
            return true;
        }
        i = i + 1;
    }
    false
}

impl RegistryState {
    /// The registry invariant; every operation requires and re-establishes
    /// it.
    pub open spec fn inv(&self) -> bool {
        self@.wf()
    }

    /// A fresh registry: empty but for the initializing principal, which
    /// becomes the first admin.
    pub fn new(initial_admin: PrincipalId) -> (r: RegistryState)
        ensures
            r.inv(),
            r@.lands == Seq::<crate::types::LandInfoView>::empty(),
            r@.listings == Seq::<crate::types::MarketplaceListingView>::empty(),
            r@.ledger == Seq::<TransactionRecord>::empty(),
            r@.next_id == 0,
            r@.admins == seq![initial_admin],
    {
        let mut admins: Vec<PrincipalId> = Vec::new();
        admins.push(initial_admin);
        let r = RegistryState {
            lands: Vec::new(),
            listings: Vec::new(),
            ledger: Vec::new(),
            next_id: 0,
            admins,
        };
        proof {
            assert(r@.lands =~= Seq::<crate::types::LandInfoView>::empty());
            assert(r@.listings =~= Seq::<crate::types::MarketplaceListingView>::empty());
            assert(r@.ledger =~= Seq::<TransactionRecord>::empty());
            assert(r@.admins =~= seq![initial_admin]);
        }
        r
    }

    /// The stored record for `land_id`, copied, if the parcel exists.
    pub fn get_land(&self, land_id: LandId) -> (r: Option<LandInfo>)
        requires
            self.inv(),
        ensures
            match r {
                Option::Some(l) => has_land(self@.lands, land_id) && l.deep_view() == land_at(
                    self@.lands,
                    land_id,
                ),
                Option::None => !has_land(self@.lands, land_id),
            },
    {
        match find_land_idx(&self.lands, land_id) {
            Option::Some(i) => {
                proof {
                    lemma_land_index_unique(self@.lands, land_id);
                }
                Option::Some(self.lands[i].clone())
            },
            Option::None => Option::None,
        }
    }

    /// Every stored record, copied, in insertion order.
    pub fn get_all_lands(&self) -> (r: Vec<LandInfo>)
        ensures
            r.deep_view() == self@.lands,
    {
        clone_lands(&self.lands)
    }

    /// The current owner of `land_id`, if the parcel exists.
    pub fn get_land_owner(&self, land_id: LandId) -> (r: Option<PrincipalId>)
        requires
            self.inv(),
        ensures
            match r {
                Option::Some(o) => has_land(self@.lands, land_id) && land_at(
                    self@.lands,
                    land_id,
                ).owner == o,
                Option::None => !has_land(self@.lands, land_id),
            },
    {
        match find_land_idx(&self.lands, land_id) {
            Option::Some(i) => {
                proof {
                    lemma_land_index_unique(self@.lands, land_id);
                }
                Option::Some(self.lands[i].owner)
            },
            Option::None => Option::None,
        }
    }

    /// True iff the parcel exists and its owner is `claimed_owner`.
    pub fn verify_land_ownership(&self, land_id: LandId, claimed_owner: PrincipalId) -> (r: bool)
        requires
            self.inv(),
        ensures
            r == (has_land(self@.lands, land_id) && land_at(self@.lands, land_id).owner
                == claimed_owner),
    {
        match find_land_idx(&self.lands, land_id) {
            Option::Some(i) => {
                proof {
                    lemma_land_index_unique(self@.lands, land_id);
                }
                self.lands[i].owner == claimed_owner
            },
            Option::None => false,
        }
    }

    /// How many parcels exist.
    pub fn get_total_supply(&self) -> (r: u64)
        ensures
            r == self@.lands.len(),
    {
        self.lands.len() as u64
    }

    /// The identifier the next registration will receive.
    pub fn get_next_land_id(&self) -> (r: LandId)
        ensures
            r == self@.next_id,
    {
        self.next_id
    }

    /// True iff `user` holds administrative rights.
    pub fn is_admin(&self, user: PrincipalId) -> (r: bool)
        ensures
            r == self@.admins.contains(user),
    {
        contains_principal(&self.admins, user)
    }

    /// Grants administrative rights; only an admin may do so.
    pub fn add_admin(&mut self, caller: PrincipalId, new_admin: PrincipalId) -> (r: Result<
        (),
        LandRegistryError,
    >)
        requires
            old(self).inv(),
        ensures
            final(self).inv(),
            add_admin_spec(old(self)@, final(self)@, caller, new_admin, r),
    {
        if !contains_principal(&self.admins, caller) {
            return Result::Err(LandRegistryError::Unauthorized);
        }
        if !contains_principal(&self.admins, new_admin) {
            self.admins.push(new_admin);
        }
        Result::Ok(())
    }

    /// A copy of the whole land store for an admin; anyone else gets an
    /// empty snapshot rather than an error.
    pub fn backup_lands(&self, caller: PrincipalId) -> (r: Vec<LandInfo>)
        ensures
            r.deep_view() == if self@.admins.contains(caller) {
                self@.lands
            } else {
                Seq::<crate::types::LandInfoView>::empty()
            },
    {
        if contains_principal(&self.admins, caller) {
            clone_lands(&self.lands)
        } else {
            let r: Vec<LandInfo> = Vec::new();
            proof {
                assert(r.deep_view() =~= Seq::<crate::types::LandInfoView>::empty());
            }
            r
        }
    }
}

/// Drops the listing for `land_id`, if there is one, keeping the others
/// in order.
fn remove_listing_vec(listings: &mut Vec<MarketplaceListing>, land_id: LandId)
    requires
        unique_listing_ids(old(listings).deep_view()),
    ensures
        final(listings).deep_view() == remove_listing(old(listings).deep_view(), land_id),
{
    match find_listing_idx(listings, land_id) {
        Option::Some(i) => {
            proof {
                lemma_listing_index_unique(old(listings).deep_view(), land_id);
            }
            listings.remove(i);
            proof {
                old(listings).deep_view().remove_ensures(i as int);
                old(listings)@.remove_ensures(i as int);
                assert(listings.deep_view() =~= old(listings).deep_view().remove(i as int));
            }
        },
        Option::None => {
        },
    }
}

/// Decides whether a snapshot may be restored: every record valid, every
/// identifier unique and below the top of the range, no two records
/// overlapping.
#[verifier::loop_isolation(false)]
fn check_restorable(lands: &Vec<LandInfo>) -> (r: bool)
    ensures
        r == restorable(lands.deep_view()),
{
    let ghost s = lands.deep_view();
    let mut i: usize = 0;
    while i < lands.len()
        invariant
            0 <= i <= s.len(),
            forall|k: int|
                0 <= k < i ==> crate::model::land_record_valid(#[trigger] s[k]) && s[k].id
                    < LandId::MAX,
            forall|k1: int, k2: int|
                #![trigger s[k1], s[k2]]
                0 <= k1 < i && 0 <= k2 < i && k1 != k2 ==> s[k1].id != s[k2].id,
            forall|k1: int, k2: int|
                #![trigger s[k1], s[k2]]
                0 <= k1 < i && 0 <= k2 < i && k1 != k2 ==> !crate::spatial::spec_overlaps(
                    s[k1].coordinates,
                    s[k1].dimensions,
                    s[k2].coordinates,
                    s[k2].dimensions,
                ),
        decreases s.len() - i,
    {
        if !validate_coordinates(&lands[i].coordinates) {
            proof {
                assert(!crate::model::land_record_valid(s[i as int]));
            }
            return false;
        }
        if !validate_dimensions(&lands[i].dimensions) {
            proof {
                assert(!crate::model::land_record_valid(s[i as int]));
            }
            return false;
        }
        if str_is_blank(lands[i].description.as_str()) {
            proof {
                assert(!crate::model::land_record_valid(s[i as int]));
            }
            return false;
        }
        if lands[i].id == LandId::MAX {
            proof {
                assert(s[i as int].id == LandId::MAX);
            }
            return false;
        }
        let mut j: usize = 0;
        while j < i
            invariant
                0 <= j <= i < s.len(),
                forall|k: int| 0 <= k < j ==> (#[trigger] s[k]).id != s[i as int].id,
                forall|k: int|
                    0 <= k < j ==> !crate::spatial::spec_overlaps(
                        s[i as int].coordinates,
                        s[i as int].dimensions,
                        (#[trigger] s[k]).coordinates,
                        s[k].dimensions,
                    ),
            decreases i - j,
        {
            if lands[j].id == lands[i].id {
                proof {
                    assert(s[j as int].id == s[i as int].id);
                    assert(!crate::model::unique_land_ids(s));
                }
                return false;
            }
            if coordinates_overlap(
                &lands[i].coordinates,
                &lands[i].dimensions,
                &lands[j].coordinates,
                &lands[j].dimensions,
            ) {
                proof {
                    assert(crate::spatial::spec_overlaps(
                        s[i as int].coordinates,
                        s[i as int].dimensions,
                        s[j as int].coordinates,
                        s[j as int].dimensions,
                    ));
                    assert(!crate::model::no_overlaps(s));
                }
                return false;
            }
            proof {
                assert(s[j as int].id != s[i as int].id);
            }
            j = j + 1;
        }
        proof {
            assert(crate::model::land_record_valid(s[i as int]));
            assert forall|k1: int, k2: int|
                #![trigger s[k1], s[k2]]
                0 <= k1 < i + 1 && 0 <= k2 < i + 1 && k1 != k2 implies s[k1].id != s[k2].id by {
                if k1 == i {
                    assert(s[k2].id != s[i as int].id);
                } else if k2 == i {
                    assert(s[k1].id != s[i as int].id);
                }
            }
            assert forall|k1: int, k2: int|
                #![trigger s[k1], s[k2]]
                0 <= k1 < i + 1 && 0 <= k2 < i + 1 && k1 != k2 implies !crate::spatial::spec_overlaps(
                s[k1].coordinates,
                s[k1].dimensions,
                s[k2].coordinates,
                s[k2].dimensions,
            ) by {
                if k1 == i && k2 < i {
                    assert(!crate::spatial::spec_overlaps(
                        s[i as int].coordinates,
                        s[i as int].dimensions,
                        s[k2].coordinates,
                        s[k2].dimensions,
                    ));
                } else if k2 == i && k1 < i {
                    assert(!crate::spatial::spec_overlaps(
                        s[i as int].coordinates,
                        s[i as int].dimensions,
                        s[k1].coordinates,
                        s[k1].dimensions,
                    ));
                    crate::spatial::lemma_overlap_symmetric(
                        s[k1].coordinates,
                        s[k1].dimensions,
                        s[i as int].coordinates,
                        s[i as int].dimensions,
                    );
                }
            }
        }
        i = i + 1;
    }
    true
}

impl RegistryState {
    /// Registers a new parcel for the caller.  Validation order:
    /// coordinates, dimensions, description, overlap, identifier space;
    /// the first failure determines the error and nothing is mutated.
    pub fn register_land(
        &mut self,
        caller: PrincipalId,
        registration: LandRegistration,
        now: Timestamp,
    ) -> (r: Result<LandId, LandRegistryError>)
        requires
            old(self).inv(),
        ensures
            final(self).inv(),
            register_land_spec(old(self)@, final(self)@, caller, registration.deep_view(), now, r),
    {
        if !validate_coordinates(&registration.coordinates) {
            return Result::Err(LandRegistryError::InvalidCoordinates);
        }
        if !validate_dimensions(&registration.dimensions) {
            return Result::Err(LandRegistryError::InvalidDimensions);
        }
        if str_is_blank(registration.description.as_str()) {
            return Result::Err(LandRegistryError::InvalidInput);
        }
        if check_land_overlap(&registration.coordinates, &registration.dimensions, &self.lands) {
            return Result::Err(LandRegistryError::LandAlreadyExists);
        }
        if self.next_id == LandId::MAX {
            return Result::Err(LandRegistryError::InvalidInput);
        }
        let ghost pre = old(self)@;
        let ghost reg_view = registration.deep_view();
        let land_id = self.next_id;
        self.next_id = land_id + 1;
        let land = LandInfo {
            id: land_id,
            owner: caller,
            coordinates: registration.coordinates,
            dimensions: registration.dimensions,
            land_type: registration.land_type,
            description: registration.description,
            metadata: registration.metadata,
            created_at: now,
            last_updated: now,
        };
        proof {
            assert(land.deep_view() == crate::model::new_land_view(land_id, caller, reg_view, now));
        }
        self.lands.push(land);
        self.ledger.push(
            TransactionRecord {
                land_id,
                from: NO_SENDER,
                to: caller,
                price: Option::None,
                transaction_type: TransactionType::Registration,
                timestamp: now,
            },
        );
        proof {
            let nl = crate::model::new_land_view(land_id, caller, reg_view, now);
            assert(self@.lands =~= pre.lands.push(nl));
            crate::model::lemma_register_preserves_wf(pre, self@, caller, reg_view, now);
        }
        Result::Ok(land_id)
    }

    /// Hands a parcel to a different owner; only the current owner may do
    /// so, and not to themselves.  Any listing for the parcel is dropped.
    pub fn transfer_land(
        &mut self,
        caller: PrincipalId,
        land_id: LandId,
        new_owner: PrincipalId,
        now: Timestamp,
    ) -> (r: Result<(), LandRegistryError>)
        requires
            old(self).inv(),
        ensures
            final(self).inv(),
            transfer_land_spec(old(self)@, final(self)@, caller, land_id, new_owner, now, r),
    {
        let ghost pre = old(self)@;
        let idx = match find_land_idx(&self.lands, land_id) {
            Option::None => {
                return Result::Err(LandRegistryError::LandNotFound);
            },
            Option::Some(i) => i,
        };
        proof {
            lemma_land_index_unique(pre.lands, land_id);
            assert(idx as int == land_index(pre.lands, land_id));
        }
        if self.lands[idx].owner != caller {
            return Result::Err(LandRegistryError::Unauthorized);
        }
        if new_owner == caller {
            return Result::Err(LandRegistryError::InvalidInput);
        }
        remove_listing_vec(&mut self.listings, land_id);
        let l = self.lands.remove(idx);
        let updated = LandInfo { owner: new_owner, last_updated: now, ..l };
        self.lands.insert(idx, updated);
        self.ledger.push(
            TransactionRecord {
                land_id,
                from: caller,
                to: new_owner,
                price: Option::None,
                transaction_type: TransactionType::Transfer,
                timestamp: now,
            },
        );
        proof {
            let s0 = old(self).lands@;
            s0.remove_ensures(idx as int);
            s0.remove(idx as int).insert_ensures(idx as int, updated);
            assert(self.lands@ =~= s0.update(idx as int, updated));
            assert(updated.deep_view() == transferred(land_at(pre.lands, land_id), new_owner, now));
            assert(self@.lands =~= pre.lands.update(
                land_index(pre.lands, land_id),
                transferred(land_at(pre.lands, land_id), new_owner, now),
            ));
            crate::model::lemma_owner_update_preserves_wf(pre, self@, land_id, new_owner, now);
        }
        Result::Ok(())
    }

    /// Puts a parcel up for sale; only the owner may list, at a positive
    /// price.  The listing snapshots the record and replaces any older
    /// listing of the parcel.
    pub fn list_for_sale(
        &mut self,
        caller: PrincipalId,
        land_id: LandId,
        price: Price,
        now: Timestamp,
    ) -> (r: Result<(), LandRegistryError>)
        requires
            old(self).inv(),
        ensures
            final(self).inv(),
            list_for_sale_spec(old(self)@, final(self)@, caller, land_id, price, now, r),
    {
        let ghost pre = old(self)@;
        let idx = match find_land_idx(&self.lands, land_id) {
            Option::None => {
                return Result::Err(LandRegistryError::LandNotFound);
            },
            Option::Some(i) => i,
        };
        proof {
            lemma_land_index_unique(pre.lands, land_id);
            assert(idx as int == land_index(pre.lands, land_id));
        }
        if self.lands[idx].owner != caller {
            return Result::Err(LandRegistryError::Unauthorized);
        }
        if price == 0 {
            return Result::Err(LandRegistryError::InvalidInput);
        }
        let snapshot = self.lands[idx].clone();
        remove_listing_vec(&mut self.listings, land_id);
        self.listings.push(
            MarketplaceListing { land_id, seller: caller, price, listed_at: now, land_info: snapshot },
        );
        proof {
            assert(self@.listings =~= remove_listing(pre.listings, land_id).push(
                crate::types::MarketplaceListingView {
                    land_id,
                    seller: caller,
                    price,
                    listed_at: now,
                    land_info: land_at(pre.lands, land_id),
                },
            ));
            crate::model::lemma_list_for_sale_preserves_wf(pre, self@, caller, land_id, price, now);
        }
        Result::Ok(())
    }

    /// Withdraws a listing; only its seller may.
    pub fn remove_from_sale(&mut self, caller: PrincipalId, land_id: LandId) -> (r: Result<
        (),
        LandRegistryError,
    >)
        requires
            old(self).inv(),
        ensures
            final(self).inv(),
            remove_from_sale_spec(old(self)@, final(self)@, caller, land_id, r),
    {
        let ghost pre = old(self)@;
        let lidx = match find_listing_idx(&self.listings, land_id) {
            Option::None => {
                return Result::Err(LandRegistryError::LandNotForSale);
            },
            Option::Some(i) => i,
        };
        proof {
            lemma_listing_index_unique(pre.listings, land_id);
            assert(lidx as int == listing_index(pre.listings, land_id));
        }
        if self.listings[lidx].seller != caller {
            return Result::Err(LandRegistryError::Unauthorized);
        }
        remove_listing_vec(&mut self.listings, land_id);
        proof {
            crate::model::lemma_remove_from_sale_preserves_wf(pre, self@, land_id);
        }
        Result::Ok(())
    }

    /// Buys a listed parcel at its listed price; the seller cannot buy
    /// their own listing.  Ownership moves to the buyer, the listing dies,
    /// and the sale is recorded in the ledger.
    pub fn buy_land(&mut self, caller: PrincipalId, land_id: LandId, now: Timestamp) -> (r: Result<
        (),
        LandRegistryError,
    >)
        requires
            old(self).inv(),
        ensures
            final(self).inv(),
            buy_land_spec(old(self)@, final(self)@, caller, land_id, now, r),
    {
        let ghost pre = old(self)@;
        let lidx = match find_listing_idx(&self.listings, land_id) {
            Option::None => {
                return Result::Err(LandRegistryError::LandNotForSale);
            },
            Option::Some(i) => i,
        };
        proof {
            lemma_listing_index_unique(pre.listings, land_id);
            assert(lidx as int == listing_index(pre.listings, land_id));
        }
        let seller = self.listings[lidx].seller;
        let price = self.listings[lidx].price;
        if seller == caller {
            return Result::Err(LandRegistryError::InvalidInput);
        }
        proof {
            assert(crate::model::listing_wf_at(pre.lands, pre.listings[lidx as int]));
        }
        // the invariant guarantees a listed parcel exists, so this lookup
        // cannot fail
        let idx = match find_land_idx(&self.lands, land_id) {
            Option::None => {
                proof {
                    assert(false);
                }
                return Result::Err(LandRegistryError::LandNotFound);
            },
            Option::Some(i) => i,
        };
        proof {
            lemma_land_index_unique(pre.lands, land_id);
            assert(idx as int == land_index(pre.lands, land_id));
        }
        remove_listing_vec(&mut self.listings, land_id);
        let l = self.lands.remove(idx);
        let updated = LandInfo { owner: caller, last_updated: now, ..l };
        self.lands.insert(idx, updated);
        self.ledger.push(
            TransactionRecord {
                land_id,
                from: seller,
                to: caller,
                price: Option::Some(price),
                transaction_type: TransactionType::Sale,
                timestamp: now,
            },
        );
        proof {
            let s0 = old(self).lands@;
            s0.remove_ensures(idx as int);
            s0.remove(idx as int).insert_ensures(idx as int, updated);
            assert(self.lands@ =~= s0.update(idx as int, updated));
            assert(updated.deep_view() == transferred(land_at(pre.lands, land_id), caller, now));
            assert(self@.lands =~= pre.lands.update(
                land_index(pre.lands, land_id),
                transferred(land_at(pre.lands, land_id), caller, now),
            ));
            crate::model::lemma_owner_update_preserves_wf(pre, self@, land_id, caller, now);
        }
        Result::Ok(())
    }

    /// Replaces a parcel's annotation; only the owner may.
    pub fn update_land_metadata(
        &mut self,
        caller: PrincipalId,
        land_id: LandId,
        metadata: crate::types::LandMetadata,
        now: Timestamp,
    ) -> (r: Result<(), LandRegistryError>)
        requires
            old(self).inv(),
        ensures
            final(self).inv(),
            update_land_metadata_spec(
                old(self)@,
                final(self)@,
                caller,
                land_id,
                metadata.deep_view(),
                now,
                r,
            ),
    {
        let ghost pre = old(self)@;
        let ghost mv = metadata.deep_view();
        let idx = match find_land_idx(&self.lands, land_id) {
            Option::None => {
                return Result::Err(LandRegistryError::LandNotFound);
            },
            Option::Some(i) => i,
        };
        proof {
            lemma_land_index_unique(pre.lands, land_id);
            assert(idx as int == land_index(pre.lands, land_id));
        }
        if self.lands[idx].owner != caller {
            return Result::Err(LandRegistryError::Unauthorized);
        }
        let l = self.lands.remove(idx);
        let updated = LandInfo { metadata: Option::Some(metadata), last_updated: now, ..l };
        self.lands.insert(idx, updated);
        proof {
            let s0 = old(self).lands@;
            s0.remove_ensures(idx as int);
            s0.remove(idx as int).insert_ensures(idx as int, updated);
            assert(self.lands@ =~= s0.update(idx as int, updated));
            assert(updated.deep_view() == crate::model::with_metadata(
                land_at(pre.lands, land_id),
                mv,
                now,
            ));
            assert(self@.lands =~= pre.lands.update(
                land_index(pre.lands, land_id),
                crate::model::with_metadata(land_at(pre.lands, land_id), mv, now),
            ));
            crate::model::lemma_metadata_update_preserves_wf(pre, self@, land_id, mv, now);
        }
        Result::Ok(())
    }

    /// Replaces the whole land store with a snapshot; admins only.  The
    /// snapshot must be internally consistent (valid records, unique
    /// identifiers below the top of the range, no overlaps) or nothing
    /// changes; listings the new store no longer supports are pruned, the
    /// identifier counter rises past every restored identifier, and the
    /// ledger is untouched.
    #[verifier::loop_isolation(false)]
    pub fn restore_lands(&mut self, caller: PrincipalId, lands: Vec<LandInfo>) -> (r: Result<
        (),
        LandRegistryError,
    >)
        requires
            old(self).inv(),
        ensures
            final(self).inv(),
            restore_lands_spec(old(self)@, final(self)@, caller, lands.deep_view(), r),
    {
        let ghost pre = old(self)@;
        let ghost new_lands = lands.deep_view();
        if !contains_principal(&self.admins, caller) {
            return Result::Err(LandRegistryError::Unauthorized);
        }
        if !check_restorable(&lands) {
            return Result::Err(LandRegistryError::InvalidInput);
        }
        let mut next: u64 = self.next_id;
        proof {
            assert(new_lands.take(0) =~= Seq::<crate::types::LandInfoView>::empty());
        }
        let mut i: usize = 0;
        while i < lands.len()
            invariant
                0 <= i <= new_lands.len(),
                next as int == raised_next_id(pre.next_id, new_lands.take(i as int)),
            decreases new_lands.len() - i,
        {
            proof {
                assert(crate::model::land_record_valid(new_lands[i as int]) && new_lands[i as int].id
                    < LandId::MAX);
            }
            if lands[i].id >= next {
                next = lands[i].id + 1;
            }
            proof {
                let t = new_lands.take(i as int + 1);
                assert(t.drop_last() =~= new_lands.take(i as int));
                assert(t.last() == new_lands[i as int]);
            }
            i = i + 1;
        }
        proof {
            assert(new_lands.take(new_lands.len() as int) =~= new_lands);
        }
        self.next_id = next;
        self.lands = lands;
        let mut kept: Vec<MarketplaceListing> = Vec::new();
        proof {
            assert(pre.listings.take(0) =~= Seq::<crate::types::MarketplaceListingView>::empty());
            assert(kept.deep_view() =~= consistent_listings(new_lands, pre.listings.take(0)));
        }
        let mut j: usize = 0;
        while j < self.listings.len()
            invariant
                0 <= j <= pre.listings.len(),
                kept.deep_view() == consistent_listings(new_lands, pre.listings.take(j as int)),
            decreases pre.listings.len() - j,
        {
            let l_id = self.listings[j].land_id;
            proof {
                assert(pre.listings[j as int].land_id == l_id);
                assert(crate::model::listing_wf_at(pre.lands, pre.listings[j as int]));
            }
            let keep = match find_land_idx(&self.lands, l_id) {
                Option::Some(k) => {
                    proof {
                        lemma_land_index_unique(new_lands, l_id);
                    }
                    let same_owner = self.lands[k].owner == self.listings[j].seller;
                    proof {
                        if same_owner {
                            assert forall|w: int|
                                0 <= w < new_lands.len() && (#[trigger] new_lands[w]).id == l_id
                                    implies new_lands[w].owner
                                == pre.listings[j as int].seller by {
                                assert(w == land_index(new_lands, l_id));
                            }
                            assert(crate::model::listing_wf_at(new_lands, pre.listings[j as int]));
                        } else {
                            assert(new_lands[k as int].id == l_id && new_lands[k as int].owner
                                != pre.listings[j as int].seller);
                            assert(!crate::model::listing_wf_at(new_lands, pre.listings[j as int]));
                        }
                    }
                    same_owner
                },
                Option::None => {
                    proof {
                        assert(!crate::model::listing_wf_at(new_lands, pre.listings[j as int]));
                    }
                    false
                },
            };
            proof {
                assert(keep == crate::model::listing_wf_at(new_lands, pre.listings[j as int]));
                let t = pre.listings.take(j as int + 1);
                assert(t.drop_last() =~= pre.listings.take(j as int));
                assert(t.last() == pre.listings[j as int]);
            }
            if keep {
                let ghost k0 = kept.deep_view();
                let c = self.listings[j].clone();
                assert(c.deep_view() == pre.listings[j as int]);
                kept.push(c);
                assert(kept.deep_view() =~= k0.push(pre.listings[j as int]));
            }
            j = j + 1;
        }
        proof {
            assert(pre.listings.take(pre.listings.len() as int) =~= pre.listings);
        }
        self.listings = kept;
        proof {
            crate::model::lemma_restore_preserves_wf(pre, self@, new_lands);
        }
        Result::Ok(())
    }

    /// Deletes a parcel outright; admins only.  The parcel leaves the
    /// store, the marketplace, and the derived indices; deleting an absent
    /// parcel succeeds doing nothing, and no ledger entry is written.
    pub fn remove_land(&mut self, caller: PrincipalId, land_id: LandId) -> (r: Result<
        (),
        LandRegistryError,
    >)
        requires
            old(self).inv(),
        ensures
            final(self).inv(),
            remove_land_spec(old(self)@, final(self)@, caller, land_id, r),
    {
        let ghost pre = old(self)@;
        if !contains_principal(&self.admins, caller) {
            return Result::Err(LandRegistryError::Unauthorized);
        }
        match find_land_idx(&self.lands, land_id) {
            Option::Some(i) => {
                proof {
                    lemma_land_index_unique(pre.lands, land_id);
                    assert(i as int == land_index(pre.lands, land_id));
                }
                self.lands.remove(i);
                proof {
                    old(self).lands@.remove_ensures(i as int);
                    old(self).lands.deep_view().remove_ensures(i as int);
                    assert(self@.lands =~= remove_land_seq(pre.lands, land_id));
                }
            },
            Option::None => {
                proof {
                    assert(self@.lands == remove_land_seq(pre.lands, land_id));
                }
            },
        }
        remove_listing_vec(&mut self.listings, land_id);
        proof {
            crate::model::lemma_remove_land_preserves_wf(pre, self@, land_id);
        }
        Result::Ok(())
    }
}

} // verus!
