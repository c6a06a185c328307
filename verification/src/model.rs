//! Mathematical model of the registry: the abstract state, the derived
//! ownership and coordinate indices, the well-formedness invariant, and
//! one effect specification per mutating operation.
//!
//! Every exec operation of [`crate::registry::RegistryState`] promises in
//! its `ensures` that the pair of abstract states before and after the
//! call satisfies the matching `..._spec` function here, so laws about
//! sequences of operations can be stated and proved purely over this
//! model.

use vstd::prelude::*;

use crate::spatial::spec_any_overlap;
use crate::spatial::spec_overlaps;
use crate::spatial::spec_valid_coordinates;
use crate::spatial::spec_valid_dimensions;
use crate::text::spec_contains_sub;
use crate::text::spec_is_blank;
use crate::types::Coordinates;
use crate::types::LandId;
use crate::types::LandInfoView;
use crate::types::LandMetadataView;
use crate::types::LandRegistrationView;
use crate::types::LandRegistryError;
use crate::types::LandType;
use crate::types::MarketplaceListingView;
use crate::types::SearchFiltersView;
use crate::types::PrincipalId;
use crate::types::Price;
use crate::types::Timestamp;
use crate::types::TransactionRecord;
use crate::types::TransactionType;
use crate::types::NO_SENDER;

verus! {

/// The abstract state of the whole registry.
pub ghost struct RegistryView {
    /// The land store, in order of insertion.
    pub lands: Seq<LandInfoView>,
    /// The active marketplace listings.
    pub listings: Seq<MarketplaceListingView>,
    /// The append-only transaction ledger, oldest first.
    pub ledger: Seq<TransactionRecord>,
    /// The next identifier to assign; exceeds every identifier ever issued.
    pub next_id: LandId,
    /// The principals with administrative rights.
    pub admins: Seq<PrincipalId>,
}

/// Some stored parcel carries identifier `id`.
pub open spec fn has_land(lands: Seq<LandInfoView>, id: LandId) -> bool {
    exists|i: int| 0 <= i < lands.len() && (#[trigger] lands[i]).id == id
}

/// Position of the parcel with identifier `id`; meaningful only when
/// [`has_land`] holds and identifiers are unique.
pub open spec fn land_index(lands: Seq<LandInfoView>, id: LandId) -> int {
    choose|i: int| 0 <= i < lands.len() && (#[trigger] lands[i]).id == id
}

/// The parcel with identifier `id`.
pub open spec fn land_at(lands: Seq<LandInfoView>, id: LandId) -> LandInfoView {
    lands[land_index(lands, id)]
}

/// Some listing is active for parcel `id`.
pub open spec fn has_listing(listings: Seq<MarketplaceListingView>, id: LandId) -> bool {
    exists|i: int| 0 <= i < listings.len() && (#[trigger] listings[i]).land_id == id
}

/// Position of the listing for parcel `id`; meaningful only when
/// [`has_listing`] holds and listed parcels are unique.
pub open spec fn listing_index(listings: Seq<MarketplaceListingView>, id: LandId) -> int {
    choose|i: int| 0 <= i < listings.len() && (#[trigger] listings[i]).land_id == id
}

/// The listing for parcel `id`.
pub open spec fn listing_at(listings: Seq<MarketplaceListingView>, id: LandId) -> MarketplaceListingView {
    listings[listing_index(listings, id)]
}

/// The listings with any entry for parcel `id` dropped.
pub open spec fn remove_listing(listings: Seq<MarketplaceListingView>, id: LandId) -> Seq<
    MarketplaceListingView,
> {
    if has_listing(listings, id) {
        listings.remove(listing_index(listings, id))
    } else {
        listings
    }
}

/// The land store with any parcel `id` dropped.
pub open spec fn remove_land_seq(lands: Seq<LandInfoView>, id: LandId) -> Seq<LandInfoView> {
    if has_land(lands, id) {
        lands.remove(land_index(lands, id))
    } else {
        lands
    }
}

/// No two stored parcels share an identifier.
pub open spec fn unique_land_ids(lands: Seq<LandInfoView>) -> bool {
    forall|i: int, j: int|
        #![trigger lands[i], lands[j]]
        0 <= i < lands.len() && 0 <= j < lands.len() && i != j ==> lands[i].id != lands[j].id
}

/// No two listings concern the same parcel.
pub open spec fn unique_listing_ids(listings: Seq<MarketplaceListingView>) -> bool {
    forall|i: int, j: int|
        #![trigger listings[i], listings[j]]
        0 <= i < listings.len() && 0 <= j < listings.len() && i != j ==> listings[i].land_id
            != listings[j].land_id
}

/// No two distinct stored parcels overlap.
pub open spec fn no_overlaps(lands: Seq<LandInfoView>) -> bool {
    forall|i: int, j: int|
        #![trigger lands[i], lands[j]]
        0 <= i < lands.len() && 0 <= j < lands.len() && i != j ==> !spec_overlaps(
            lands[i].coordinates,
            lands[i].dimensions,
            lands[j].coordinates,
            lands[j].dimensions,
        )
}

/// A stored record is valid: origin and extent in range, description not
/// blank.
pub open spec fn land_record_valid(l: LandInfoView) -> bool {
    &&& spec_valid_coordinates(l.coordinates)
    &&& spec_valid_dimensions(l.dimensions)
    &&& !spec_is_blank(l.description)
}

/// A listing is consistent with the land store: its parcel exists, is
/// still owned by the seller, the price is positive, and the snapshot
/// describes the listed parcel.
pub open spec fn listing_wf_at(lands: Seq<LandInfoView>, l: MarketplaceListingView) -> bool {
    &&& has_land(lands, l.land_id)
    &&& forall|j: int|
        0 <= j < lands.len() && (#[trigger] lands[j]).id == l.land_id ==> lands[j].owner == l.seller
    &&& l.price > 0
    &&& l.land_info.id == l.land_id
}

impl RegistryView {
    /// The registry invariant, re-established by every operation.
    pub open spec fn wf(self) -> bool {
        &&& unique_land_ids(self.lands)
        &&& forall|i: int| 0 <= i < self.lands.len() ==> (#[trigger] self.lands[i]).id < self.next_id
        &&& forall|i: int|
            0 <= i < self.lands.len() ==> land_record_valid(#[trigger] self.lands[i])
        &&& no_overlaps(self.lands)
        &&& unique_listing_ids(self.listings)
        &&& forall|i: int|
            0 <= i < self.listings.len() ==> listing_wf_at(self.lands, #[trigger] self.listings[i])
    }
}

/// The OwnershipIndex bucket for `owner`, derived from the store: the
/// identifiers of exactly the parcels whose owner field equals `owner`.
pub open spec fn owner_holdings(lands: Seq<LandInfoView>, owner: PrincipalId) -> Set<LandId> {
    Set::new(|id: LandId| has_land(lands, id) && land_at(lands, id).owner == owner)
}

/// The keys of the derived OwnershipIndex: owners holding some parcel.
pub open spec fn owner_set(lands: Seq<LandInfoView>) -> Set<PrincipalId> {
    Set::new(|owner: PrincipalId| exists|i: int| 0 <= i < lands.len() && (#[trigger] lands[i]).owner == owner)
}

/// Number of distinct owners, counted over first occurrences in the store.
pub open spec fn owner_count(lands: Seq<LandInfoView>) -> nat
    decreases lands.len(),
{
    if lands.len() == 0 {
        0
    } else {
        let rest = lands.drop_last();
        owner_count(rest) + if exists|i: int|
            0 <= i < rest.len() && (#[trigger] rest[i]).owner == lands.last().owner {
            0nat
        } else {
            1nat
        }
    }
}

/// The origin triple of a parcel, the key of the derived CoordinateIndex.
pub open spec fn origin_key(l: LandInfoView) -> (int, int, int) {
    (l.coordinates.x as int, l.coordinates.y as int, l.coordinates.z as int)
}

/// The CoordinateIndex, derived from the store: origin triple to the
/// identifier of the parcel anchored there.
pub open spec fn coordinate_index(lands: Seq<LandInfoView>) -> Map<(int, int, int), LandId> {
    Map::new(
        |k: (int, int, int)| exists|i: int| 0 <= i < lands.len() && origin_key(#[trigger] lands[i]) == k,
        |k: (int, int, int)|
            lands[choose|i: int| 0 <= i < lands.len() && origin_key(#[trigger] lands[i]) == k].id,
    )
}

/// Sum of the listed prices.
pub open spec fn sum_prices(listings: Seq<MarketplaceListingView>) -> int
    decreases listings.len(),
{
    if listings.len() == 0 {
        0
    } else {
        sum_prices(listings.drop_last()) + listings.last().price
    }
}

/// Sum of the ground areas of all stored parcels.
pub open spec fn total_area(lands: Seq<LandInfoView>) -> int
    decreases lands.len(),
{
    if lands.len() == 0 {
        0
    } else {
        total_area(lands.drop_last()) + crate::spatial::spec_area(lands.last().dimensions)
    }
}

/// The record a registration request turns into.
pub open spec fn new_land_view(
    id: LandId,
    owner: PrincipalId,
    reg: LandRegistrationView,
    now: Timestamp,
) -> LandInfoView {
    LandInfoView {
        id,
        owner,
        coordinates: reg.coordinates,
        dimensions: reg.dimensions,
        land_type: reg.land_type,
        description: reg.description,
        metadata: reg.metadata,
        created_at: now,
        last_updated: now,
    }
}

/// A record after its ownership changed hands.
pub open spec fn transferred(l: LandInfoView, new_owner: PrincipalId, now: Timestamp) -> LandInfoView {
    LandInfoView { owner: new_owner, last_updated: now, ..l }
}

/// A record after its metadata was replaced.
pub open spec fn with_metadata(l: LandInfoView, m: LandMetadataView, now: Timestamp) -> LandInfoView {
    LandInfoView { metadata: Option::Some(m), last_updated: now, ..l }
}

/// A supplied snapshot may be restored iff every record is valid, no
/// identifier is repeated or at the very top of the range, and no two
/// records overlap.
pub open spec fn restorable(lands: Seq<LandInfoView>) -> bool {
    &&& forall|i: int|
        0 <= i < lands.len() ==> land_record_valid(#[trigger] lands[i]) && lands[i].id
            < LandId::MAX
    &&& unique_land_ids(lands)
    &&& no_overlaps(lands)
}

/// The allocation counter after a restore: raised past every restored
/// identifier, never lowered.
pub open spec fn raised_next_id(base: LandId, lands: Seq<LandInfoView>) -> int
    decreases lands.len(),
{
    if lands.len() == 0 {
        base as int
    } else {
        let rest = raised_next_id(base, lands.drop_last());
        if lands.last().id + 1 > rest {
            lands.last().id + 1
        } else {
            rest
        }
    }
}

/// The listings that remain consistent with a (new) land store, in their
/// original order.
pub open spec fn consistent_listings(
    lands: Seq<LandInfoView>,
    listings: Seq<MarketplaceListingView>,
) -> Seq<MarketplaceListingView>
    decreases listings.len(),
{
    if listings.len() == 0 {
        Seq::empty()
    } else {
        let rest = consistent_listings(lands, listings.drop_last());
        if listing_wf_at(lands, listings.last()) {
            rest.push(listings.last())
        } else {
            rest
        }
    }
}

/// Effect of `register_land`: the first failing validation determines the
/// error; on success the new record and a registration ledger entry are
/// appended and the identifier counter advances.
pub open spec fn register_land_spec(
    pre: RegistryView,
    post: RegistryView,
    caller: PrincipalId,
    reg: LandRegistrationView,
    now: Timestamp,
    r: Result<LandId, LandRegistryError>,
) -> bool {
    if !spec_valid_coordinates(reg.coordinates) {
        r == Err::<LandId, LandRegistryError>(LandRegistryError::InvalidCoordinates) && post == pre
    } else if !spec_valid_dimensions(reg.dimensions) {
        r == Err::<LandId, LandRegistryError>(LandRegistryError::InvalidDimensions) && post == pre
    } else if spec_is_blank(reg.description) {
        r == Err::<LandId, LandRegistryError>(LandRegistryError::InvalidInput) && post == pre
    } else if spec_any_overlap(pre.lands, reg.coordinates, reg.dimensions) {
        r == Err::<LandId, LandRegistryError>(LandRegistryError::LandAlreadyExists) && post == pre
    } else if pre.next_id == LandId::MAX {
        r == Err::<LandId, LandRegistryError>(LandRegistryError::InvalidInput) && post == pre
    } else {
        &&& r == Ok::<LandId, LandRegistryError>(pre.next_id)
        &&& post.lands == pre.lands.push(new_land_view(pre.next_id, caller, reg, now))
        &&& post.listings == pre.listings
        &&& post.ledger == pre.ledger.push(
            TransactionRecord {
                land_id: pre.next_id,
                from: NO_SENDER,
                to: caller,
                price: Option::None,
                transaction_type: TransactionType::Registration,
                timestamp: now,
            },
        )
        &&& post.next_id == pre.next_id + 1
        &&& post.admins == pre.admins
    }
}

/// Effect of `transfer_land`: only the current owner may hand a parcel to
/// someone else; any listing for it dies with the transfer.
pub open spec fn transfer_land_spec(
    pre: RegistryView,
    post: RegistryView,
    caller: PrincipalId,
    land_id: LandId,
    new_owner: PrincipalId,
    now: Timestamp,
    r: Result<(), LandRegistryError>,
) -> bool {
    if !has_land(pre.lands, land_id) {
        r == Err::<(), LandRegistryError>(LandRegistryError::LandNotFound) && post == pre
    } else if land_at(pre.lands, land_id).owner != caller {
        r == Err::<(), LandRegistryError>(LandRegistryError::Unauthorized) && post == pre
    } else if new_owner == caller {
        r == Err::<(), LandRegistryError>(LandRegistryError::InvalidInput) && post == pre
    } else {
        &&& r == Ok::<(), LandRegistryError>(())
        &&& post.lands == pre.lands.update(
            land_index(pre.lands, land_id),
            transferred(land_at(pre.lands, land_id), new_owner, now),
        )
        &&& post.listings == remove_listing(pre.listings, land_id)
        &&& post.ledger == pre.ledger.push(
            TransactionRecord {
                land_id,
                from: caller,
                to: new_owner,
                price: Option::None,
                transaction_type: TransactionType::Transfer,
                timestamp: now,
            },
        )
        &&& post.next_id == pre.next_id
        &&& post.admins == pre.admins
    }
}

/// Effect of `list_for_sale`: only the owner may list, at a positive
/// price; a fresh listing snapshots the record and replaces any older
/// listing of the same parcel.  Listing is not a ledger event.
pub open spec fn list_for_sale_spec(
    pre: RegistryView,
    post: RegistryView,
    caller: PrincipalId,
    land_id: LandId,
    price: Price,
    now: Timestamp,
    r: Result<(), LandRegistryError>,
) -> bool {
    if !has_land(pre.lands, land_id) {
        r == Err::<(), LandRegistryError>(LandRegistryError::LandNotFound) && post == pre
    } else if land_at(pre.lands, land_id).owner != caller {
        r == Err::<(), LandRegistryError>(LandRegistryError::Unauthorized) && post == pre
    } else if price == 0 {
        r == Err::<(), LandRegistryError>(LandRegistryError::InvalidInput) && post == pre
    } else {
        &&& r == Ok::<(), LandRegistryError>(())
        &&& post.lands == pre.lands
        &&& post.listings == remove_listing(pre.listings, land_id).push(
            MarketplaceListingView {
                land_id,
                seller: caller,
                price,
                listed_at: now,
                land_info: land_at(pre.lands, land_id),
            },
        )
        &&& post.ledger == pre.ledger
        &&& post.next_id == pre.next_id
        &&& post.admins == pre.admins
    }
}

/// Effect of `remove_from_sale`: only the seller may withdraw an active
/// listing.
pub open spec fn remove_from_sale_spec(
    pre: RegistryView,
    post: RegistryView,
    caller: PrincipalId,
    land_id: LandId,
    r: Result<(), LandRegistryError>,
) -> bool {
    if !has_listing(pre.listings, land_id) {
        r == Err::<(), LandRegistryError>(LandRegistryError::LandNotForSale) && post == pre
    } else if listing_at(pre.listings, land_id).seller != caller {
        r == Err::<(), LandRegistryError>(LandRegistryError::Unauthorized) && post == pre
    } else {
        &&& r == Ok::<(), LandRegistryError>(())
        &&& post.lands == pre.lands
        &&& post.listings == remove_listing(pre.listings, land_id)
        &&& post.ledger == pre.ledger
        &&& post.next_id == pre.next_id
        &&& post.admins == pre.admins
    }
}

/// Effect of `buy_land`: anyone but the seller may take a listed parcel;
/// ownership moves to the buyer, the listing dies, and a sale ledger
/// entry records the listed price.  Payment settlement is out of scope.
pub open spec fn buy_land_spec(
    pre: RegistryView,
    post: RegistryView,
    caller: PrincipalId,
    land_id: LandId,
    now: Timestamp,
    r: Result<(), LandRegistryError>,
) -> bool {
    if !has_listing(pre.listings, land_id) {
        r == Err::<(), LandRegistryError>(LandRegistryError::LandNotForSale) && post == pre
    } else if listing_at(pre.listings, land_id).seller == caller {
        r == Err::<(), LandRegistryError>(LandRegistryError::InvalidInput) && post == pre
    } else {
        &&& r == Ok::<(), LandRegistryError>(())
        &&& post.lands == pre.lands.update(
            land_index(pre.lands, land_id),
            transferred(land_at(pre.lands, land_id), caller, now),
        )
        &&& post.listings == remove_listing(pre.listings, land_id)
        &&& post.ledger == pre.ledger.push(
            TransactionRecord {
                land_id,
                from: listing_at(pre.listings, land_id).seller,
                to: caller,
                price: Option::Some(listing_at(pre.listings, land_id).price),
                transaction_type: TransactionType::Sale,
                timestamp: now,
            },
        )
        &&& post.next_id == pre.next_id
        &&& post.admins == pre.admins
    }
}

/// Effect of `update_land_metadata`: only the owner may annotate; the
/// record keeps everything else and bumps its update time.
pub open spec fn update_land_metadata_spec(
    pre: RegistryView,
    post: RegistryView,
    caller: PrincipalId,
    land_id: LandId,
    m: LandMetadataView,
    now: Timestamp,
    r: Result<(), LandRegistryError>,
) -> bool {
    if !has_land(pre.lands, land_id) {
        r == Err::<(), LandRegistryError>(LandRegistryError::LandNotFound) && post == pre
    } else if land_at(pre.lands, land_id).owner != caller {
        r == Err::<(), LandRegistryError>(LandRegistryError::Unauthorized) && post == pre
    } else {
        &&& r == Ok::<(), LandRegistryError>(())
        &&& post.lands == pre.lands.update(
            land_index(pre.lands, land_id),
            with_metadata(land_at(pre.lands, land_id), m, now),
        )
        &&& post.listings == pre.listings
        &&& post.ledger == pre.ledger
        &&& post.next_id == pre.next_id
        &&& post.admins == pre.admins
    }
}

/// Effect of `add_admin`: only an admin may appoint another; appointing
/// an existing admin changes nothing.
pub open spec fn add_admin_spec(
    pre: RegistryView,
    post: RegistryView,
    caller: PrincipalId,
    new_admin: PrincipalId,
    r: Result<(), LandRegistryError>,
) -> bool {
    if !pre.admins.contains(caller) {
        r == Err::<(), LandRegistryError>(LandRegistryError::Unauthorized) && post == pre
    } else {
        &&& r == Ok::<(), LandRegistryError>(())
        &&& post.lands == pre.lands
        &&& post.listings == pre.listings
        &&& post.ledger == pre.ledger
        &&& post.next_id == pre.next_id
        &&& post.admins == if pre.admins.contains(new_admin) {
            pre.admins
        } else {
            pre.admins.push(new_admin)
        }
    }
}

/// Effect of `remove_land`: an admin may delete any parcel; the parcel
/// and its listing vanish from every index, the ledger keeps no record of
/// the removal, and removing an absent parcel succeeds doing nothing.
pub open spec fn remove_land_spec(
    pre: RegistryView,
    post: RegistryView,
    caller: PrincipalId,
    land_id: LandId,
    r: Result<(), LandRegistryError>,
) -> bool {
    if !pre.admins.contains(caller) {
        r == Err::<(), LandRegistryError>(LandRegistryError::Unauthorized) && post == pre
    } else {
        &&& r == Ok::<(), LandRegistryError>(())
        &&& post.lands == remove_land_seq(pre.lands, land_id)
        &&& post.listings == remove_listing(pre.listings, land_id)
        &&& post.ledger == pre.ledger
        &&& post.next_id == pre.next_id
        &&& post.admins == pre.admins
    }
}

/// Effect of `restore_lands`: an admin replaces the land store with a
/// validated snapshot; the counter rises past every restored identifier,
/// listings that the new store no longer supports are pruned, and the
/// ledger is untouched.
pub open spec fn restore_lands_spec(
    pre: RegistryView,
    post: RegistryView,
    caller: PrincipalId,
    lands: Seq<LandInfoView>,
    r: Result<(), LandRegistryError>,
) -> bool {
    if !pre.admins.contains(caller) {
        r == Err::<(), LandRegistryError>(LandRegistryError::Unauthorized) && post == pre
    } else if !restorable(lands) {
        r == Err::<(), LandRegistryError>(LandRegistryError::InvalidInput) && post == pre
    } else {
        &&& r == Ok::<(), LandRegistryError>(())
        &&& post.lands == lands
        &&& post.listings == consistent_listings(lands, pre.listings)
        &&& post.ledger == pre.ledger
        &&& post.next_id == raised_next_id(pre.next_id, lands)
        &&& post.admins == pre.admins
    }
}

/// Under unique identifiers, every position holding `id` is the position
/// [`land_index`] picks.
pub proof fn lemma_land_index_unique(lands: Seq<LandInfoView>, id: LandId)
    requires
        unique_land_ids(lands),
        has_land(lands, id),
    ensures
        0 <= land_index(lands, id) < lands.len(),
        lands[land_index(lands, id)].id == id,
        forall|i: int|
            0 <= i < lands.len() && (#[trigger] lands[i]).id == id ==> i == land_index(lands, id),
{
}

/// Under unique listed parcels, every position listing `id` is the
/// position [`listing_index`] picks.
pub proof fn lemma_listing_index_unique(listings: Seq<MarketplaceListingView>, id: LandId)
    requires
        unique_listing_ids(listings),
        has_listing(listings, id),
    ensures
        0 <= listing_index(listings, id) < listings.len(),
        listings[listing_index(listings, id)].land_id == id,
        forall|i: int|
            0 <= i < listings.len() && (#[trigger] listings[i]).land_id == id ==> i
                == listing_index(listings, id),
{
}

/// Dropping the listing for `id` keeps the remaining listings unique,
/// leaves none for `id`, and invents no listing.
pub proof fn lemma_remove_listing_props(s: Seq<MarketplaceListingView>, id: LandId)
    requires
        unique_listing_ids(s),
    ensures
        unique_listing_ids(remove_listing(s, id)),
        !has_listing(remove_listing(s, id), id),
        forall|k: int|
            0 <= k < remove_listing(s, id).len() ==> s.contains(
                #[trigger] remove_listing(s, id)[k],
            ),
{
    if has_listing(s, id) {
        lemma_listing_index_unique(s, id);
        let idx = listing_index(s, id);
        let r = s.remove(idx);
        s.remove_ensures(idx);
        assert forall|k: int| 0 <= k < remove_listing(s, id).len() implies s.contains(
            #[trigger] remove_listing(s, id)[k],
        ) by {
            if k < idx {
                assert(s[k] == r[k]);
                assert(s[k] == remove_listing(s, id)[k]);
            } else {
                assert(s[k + 1] == r[k]);
                assert(s[k + 1] == remove_listing(s, id)[k]);
            }
        }
        assert forall|i: int, j: int|
            #![trigger r[i], r[j]]
            0 <= i < r.len() && 0 <= j < r.len() && i != j implies r[i].land_id
            != r[j].land_id by {
            let i0 = if i < idx { i } else { i + 1 };
            let j0 = if j < idx { j } else { j + 1 };
            assert(r[i] == s[i0]);
            assert(r[j] == s[j0]);
        }
        assert forall|k: int| 0 <= k < r.len() implies (#[trigger] r[k]).land_id != id by {
            let k0 = if k < idx { k } else { k + 1 };
            assert(r[k] == s[k0]);
        }
    } else {
        assert forall|k: int| 0 <= k < remove_listing(s, id).len() implies s.contains(
            #[trigger] remove_listing(s, id)[k],
        ) by {
            assert(s[k] == remove_listing(s, id)[k]);
        }
    }
}

/// Dropping the parcel `id` keeps the store's identifiers unique, leaves
/// no parcel `id`, invents no record, and keeps every other parcel.
pub proof fn lemma_remove_land_props(s: Seq<LandInfoView>, id: LandId)
    requires
        unique_land_ids(s),
    ensures
        unique_land_ids(remove_land_seq(s, id)),
        !has_land(remove_land_seq(s, id), id),
        forall|k: int|
            0 <= k < remove_land_seq(s, id).len() ==> s.contains(
                #[trigger] remove_land_seq(s, id)[k],
            ),
        forall|id2: LandId|
            id2 != id && has_land(s, id2) ==> #[trigger] has_land(remove_land_seq(s, id), id2),
{
    if has_land(s, id) {
        lemma_land_index_unique(s, id);
        let idx = land_index(s, id);
        let r = s.remove(idx);
        s.remove_ensures(idx);
        assert forall|k: int| 0 <= k < remove_land_seq(s, id).len() implies s.contains(
            #[trigger] remove_land_seq(s, id)[k],
        ) by {
            if k < idx {
                assert(s[k] == r[k]);
                assert(s[k] == remove_land_seq(s, id)[k]);
            } else {
                assert(s[k + 1] == r[k]);
                assert(s[k + 1] == remove_land_seq(s, id)[k]);
            }
        }
        assert forall|i: int, j: int|
            #![trigger r[i], r[j]]
            0 <= i < r.len() && 0 <= j < r.len() && i != j implies r[i].id != r[j].id by {
            let i0 = if i < idx { i } else { i + 1 };
            let j0 = if j < idx { j } else { j + 1 };
            assert(r[i] == s[i0]);
            assert(r[j] == s[j0]);
        }
        assert forall|k: int| 0 <= k < r.len() implies (#[trigger] r[k]).id != id by {
            let k0 = if k < idx { k } else { k + 1 };
            assert(r[k] == s[k0]);
        }
        assert forall|id2: LandId| id2 != id && has_land(s, id2) implies #[trigger] has_land(
            r,
            id2,
        ) by {
            let j = choose|j: int| 0 <= j < s.len() && (#[trigger] s[j]).id == id2;
            if j < idx {
                assert(r[j] == s[j]);
            } else {
                assert(j > idx);
                assert(r[j - 1] == s[j]);
            }
        }
    } else {
        assert forall|k: int| 0 <= k < remove_land_seq(s, id).len() implies s.contains(
            #[trigger] remove_land_seq(s, id)[k],
        ) by {
            assert(s[k] == remove_land_seq(s, id)[k]);
        }
    }
}

/// The raised counter never falls below its base, exceeds every supplied
/// identifier, and stays within the identifier type.
pub proof fn lemma_raised_next_id(base: LandId, lands: Seq<LandInfoView>)
    requires
        forall|i: int| 0 <= i < lands.len() ==> (#[trigger] lands[i]).id < LandId::MAX,
    ensures
        base as int <= raised_next_id(base, lands) <= LandId::MAX,
        forall|i: int| 0 <= i < lands.len() ==> (#[trigger] lands[i]).id < raised_next_id(base, lands),
    decreases lands.len(),
{
    if lands.len() > 0 {
        let rest = lands.drop_last();
        lemma_raised_next_id(base, rest);
        assert(forall|i: int| 0 <= i < rest.len() ==> rest[i] == #[trigger] lands[i]);
    }
}

/// When every supplied identifier is already below the base, the counter
/// stays exactly at the base.
pub proof fn lemma_raised_next_id_fixed(base: LandId, lands: Seq<LandInfoView>)
    requires
        forall|i: int| 0 <= i < lands.len() ==> (#[trigger] lands[i]).id < base,
    ensures
        raised_next_id(base, lands) == base as int,
    decreases lands.len(),
{
    if lands.len() > 0 {
        let rest = lands.drop_last();
        assert(forall|i: int| 0 <= i < rest.len() ==> rest[i] == #[trigger] lands[i]);
        lemma_raised_next_id_fixed(base, rest);
    }
}

/// The parcels owned by `owner`, in store order.
pub open spec fn lands_of_owner(lands: Seq<LandInfoView>, owner: PrincipalId) -> Seq<LandInfoView> {
    lands.filter(|l: LandInfoView| l.owner == owner)
}

/// The parcels of one zoning category, in store order.
pub open spec fn lands_of_type(lands: Seq<LandInfoView>, t: LandType) -> Seq<LandInfoView> {
    lands.filter(|l: LandInfoView| l.land_type == t)
}

/// The listings whose snapshot has one zoning category, in listing order.
pub open spec fn listings_of_type(
    listings: Seq<MarketplaceListingView>,
    t: LandType,
) -> Seq<MarketplaceListingView> {
    listings.filter(|l: MarketplaceListingView| l.land_info.land_type == t)
}

/// An origin lies in the inclusive box spanned by `min` and `max`.
pub open spec fn coords_in_range(c: Coordinates, min: Coordinates, max: Coordinates) -> bool {
    &&& min.x <= c.x <= max.x
    &&& min.y <= c.y <= max.y
    &&& min.z <= c.z <= max.z
}

/// The parcels whose origin lies in the inclusive coordinate box.
pub open spec fn lands_in_coord_range(
    lands: Seq<LandInfoView>,
    min: Coordinates,
    max: Coordinates,
) -> Seq<LandInfoView> {
    lands.filter(|l: LandInfoView| coords_in_range(l.coordinates, min, max))
}

/// An origin lies within `radius` of `center` on every axis
/// independently (Chebyshev-style, not Euclidean).
pub open spec fn within_radius(c: Coordinates, center: Coordinates, radius: u32) -> bool {
    &&& -(radius as int) <= c.x - center.x <= radius as int
    &&& -(radius as int) <= c.y - center.y <= radius as int
    &&& -(radius as int) <= c.z - center.z <= radius as int
}

/// The parcels whose origin lies within `radius` of `center`.
pub open spec fn lands_near(
    lands: Seq<LandInfoView>,
    center: Coordinates,
    radius: u32,
) -> Seq<LandInfoView> {
    lands.filter(|l: LandInfoView| within_radius(l.coordinates, center, radius))
}

/// Some recorded special feature has `want` as a substring.
pub open spec fn feature_satisfied(sf: Seq<Seq<char>>, want: Seq<char>) -> bool {
    exists|k: int| 0 <= k < sf.len() && spec_contains_sub(#[trigger] sf[k], want)
}

/// A parcel record passes the conjunctive search criteria: zoning
/// category, minimum ground area, inclusive origin box, and features —
/// every requested feature must occur as a substring of some recorded
/// special feature, and a parcel without metadata fails any non-empty
/// feature request.
pub open spec fn matches_filters_land(l: LandInfoView, f: SearchFiltersView) -> bool {
    &&& match f.land_type {
        Option::Some(t) => l.land_type == t,
        Option::None => true,
    }
    &&& match f.min_area {
        Option::Some(a) => crate::spatial::spec_area(l.dimensions) >= a,
        Option::None => true,
    }
    &&& match f.coordinates_range {
        Option::Some((min, max)) => coords_in_range(l.coordinates, min, max),
        Option::None => true,
    }
    &&& match f.features {
        Option::Some(fs) => match l.metadata {
            Option::Some(m) => forall|j: int|
                #![trigger fs[j]]
                0 <= j < fs.len() ==> feature_satisfied(m.special_features, fs[j]),
            Option::None => fs.len() == 0,
        },
        Option::None => true,
    }
}

/// The parcels passing the search criteria, in store order.
pub open spec fn search_lands_result(
    lands: Seq<LandInfoView>,
    f: SearchFiltersView,
) -> Seq<LandInfoView> {
    lands.filter(|l: LandInfoView| matches_filters_land(l, f))
}

/// A listing passes the conjunctive search criteria: zoning category,
/// price bounds, minimum ground area, inclusive origin box, and
/// features, all judged against the listing's snapshot; as for parcels,
/// a snapshot without metadata fails any non-empty feature request.
pub open spec fn matches_filters_listing(l: MarketplaceListingView, f: SearchFiltersView) -> bool {
    &&& match f.land_type {
        Option::Some(t) => l.land_info.land_type == t,
        Option::None => true,
    }
    &&& match f.min_price {
        Option::Some(p) => l.price >= p,
        Option::None => true,
    }
    &&& match f.max_price {
        Option::Some(p) => l.price <= p,
        Option::None => true,
    }
    &&& match f.min_area {
        Option::Some(a) => crate::spatial::spec_area(l.land_info.dimensions) >= a,
        Option::None => true,
    }
    &&& match f.coordinates_range {
        Option::Some((min, max)) => coords_in_range(l.land_info.coordinates, min, max),
        Option::None => true,
    }
    &&& match f.features {
        Option::Some(fs) => match l.land_info.metadata {
            Option::Some(m) => forall|j: int|
                #![trigger fs[j]]
                0 <= j < fs.len() ==> feature_satisfied(m.special_features, fs[j]),
            Option::None => fs.len() == 0,
        },
        Option::None => true,
    }
}

/// The listings passing the search criteria, in listing order.
pub open spec fn search_marketplace_result(
    listings: Seq<MarketplaceListingView>,
    f: SearchFiltersView,
) -> Seq<MarketplaceListingView> {
    listings.filter(|l: MarketplaceListingView| matches_filters_listing(l, f))
}

/// The ledger entries concerning one parcel, oldest first.
pub open spec fn txs_for_land(ledger: Seq<TransactionRecord>, id: LandId) -> Seq<TransactionRecord> {
    ledger.filter(|t: TransactionRecord| t.land_id == id)
}

/// The ledger entries a user took part in, oldest first.
pub open spec fn txs_of_user(ledger: Seq<TransactionRecord>, user: PrincipalId) -> Seq<
    TransactionRecord,
> {
    ledger.filter(|t: TransactionRecord| t.from == user || t.to == user)
}

/// The priced ledger entries for one parcel, as (time, price) pairs.
pub open spec fn price_history_result(ledger: Seq<TransactionRecord>, id: LandId) -> Seq<
    (Timestamp, Price),
> {
    ledger.filter(|t: TransactionRecord| t.land_id == id && t.price is Some).map_values(
        |t: TransactionRecord|
            (
                t.timestamp,
                match t.price {
                    Option::Some(p) => p,
                    Option::None => 0,
                },
            ),
    )
}

/// The consistent listings are drawn from the originals, pairwise
/// distinct, and each consistent with the new store.
pub proof fn lemma_consistent_listings_props(
    lands: Seq<LandInfoView>,
    listings: Seq<MarketplaceListingView>,
)
    requires
        unique_listing_ids(listings),
    ensures
        unique_listing_ids(consistent_listings(lands, listings)),
        forall|k: int|
            0 <= k < consistent_listings(lands, listings).len() ==> listings.contains(
                #[trigger] consistent_listings(lands, listings)[k],
            ) && listing_wf_at(lands, consistent_listings(lands, listings)[k]),
    decreases listings.len(),
{
    if listings.len() > 0 {
        let rest = listings.drop_last();
        assert(forall|i: int| 0 <= i < rest.len() ==> rest[i] == #[trigger] listings[i]);
        lemma_consistent_listings_props(lands, rest);
        let cr = consistent_listings(lands, rest);
        let c = consistent_listings(lands, listings);
        assert forall|k: int| 0 <= k < c.len() implies listings.contains(#[trigger] c[k])
            && listing_wf_at(lands, c[k]) by {
            if k < cr.len() {
                assert(rest.contains(cr[k]));
                let j = choose|j: int| 0 <= j < rest.len() && rest[j] == cr[k];
                assert(listings[j] == cr[k]);
            } else {
                assert(c[k] == listings.last());
                assert(listings[listings.len() - 1] == listings.last());
            }
        }
        if listing_wf_at(lands, listings.last()) {
            assert forall|i: int, j: int|
                #![trigger c[i], c[j]]
                0 <= i < c.len() && 0 <= j < c.len() && i != j implies c[i].land_id
                != c[j].land_id by {
                if i < cr.len() && j < cr.len() {
                    assert(cr[i].land_id != cr[j].land_id);
                } else if i < cr.len() {
                    assert(c[j] == listings.last());
                    assert(rest.contains(cr[i]));
                    let k = choose|k: int| 0 <= k < rest.len() && rest[k] == cr[i];
                    assert(listings[k] == rest[k]);
                    assert(listings[listings.len() - 1] == listings.last());
                } else {
                    assert(c[i] == listings.last());
                    assert(rest.contains(cr[j]));
                    let k = choose|k: int| 0 <= k < rest.len() && rest[k] == cr[j];
                    assert(listings[k] == rest[k]);
                    assert(listings[listings.len() - 1] == listings.last());
                }
            }
        }
    }
}

/// When every listing is already consistent with the store, pruning
/// changes nothing.
pub proof fn lemma_consistent_listings_all(
    lands: Seq<LandInfoView>,
    listings: Seq<MarketplaceListingView>,
)
    requires
        forall|i: int| 0 <= i < listings.len() ==> listing_wf_at(lands, #[trigger] listings[i]),
    ensures
        consistent_listings(lands, listings) == listings,
    decreases listings.len(),
{
    if listings.len() == 0 {
        assert(consistent_listings(lands, listings) =~= listings);
    } else {
        let rest = listings.drop_last();
        assert(forall|i: int| 0 <= i < rest.len() ==> rest[i] == #[trigger] listings[i]);
        assert(listings[listings.len() - 1] == listings.last());
        lemma_consistent_listings_all(lands, rest);
        assert(consistent_listings(lands, listings) =~= listings);
    }
}

/// A successful registration keeps the registry well-formed.
pub proof fn lemma_register_preserves_wf(
    pre: RegistryView,
    post: RegistryView,
    caller: PrincipalId,
    reg: LandRegistrationView,
    now: Timestamp,
)
    requires
        pre.wf(),
        spec_valid_coordinates(reg.coordinates),
        spec_valid_dimensions(reg.dimensions),
        !spec_is_blank(reg.description),
        !spec_any_overlap(pre.lands, reg.coordinates, reg.dimensions),
        pre.next_id < LandId::MAX,
        post.lands == pre.lands.push(new_land_view(pre.next_id, caller, reg, now)),
        post.listings == pre.listings,
        post.next_id == pre.next_id + 1,
    ensures
        post.wf(),
{
    let nl = new_land_view(pre.next_id, caller, reg, now);
    let lands2 = post.lands;
    let n = pre.lands.len() as int;
    assert(forall|k: int| 0 <= k < n ==> lands2[k] == #[trigger] pre.lands[k]);
    assert(lands2[n] == nl);
    assert forall|i: int, j: int|
        #![trigger lands2[i], lands2[j]]
        0 <= i < lands2.len() && 0 <= j < lands2.len() && i != j implies lands2[i].id
        != lands2[j].id by {
        if i < n && j < n {
            assert(pre.lands[i].id != pre.lands[j].id);
        } else if i == n {
            assert(pre.lands[j].id < pre.next_id);
        } else {
            assert(pre.lands[i].id < pre.next_id);
        }
    }
    assert forall|i: int| 0 <= i < lands2.len() implies (#[trigger] lands2[i]).id
        < post.next_id by {
        if i < n {
            assert(pre.lands[i].id < pre.next_id);
        }
    }
    assert forall|i: int| 0 <= i < lands2.len() implies land_record_valid(
        #[trigger] lands2[i],
    ) by {
        if i < n {
            assert(land_record_valid(pre.lands[i]));
        }
    }
    assert forall|i: int, j: int|
        #![trigger lands2[i], lands2[j]]
        0 <= i < lands2.len() && 0 <= j < lands2.len() && i != j implies !spec_overlaps(
        lands2[i].coordinates,
        lands2[i].dimensions,
        lands2[j].coordinates,
        lands2[j].dimensions,
    ) by {
        if i < n && j < n {
            assert(pre.lands[i] == lands2[i]);
            assert(pre.lands[j] == lands2[j]);
        } else if i == n {
            assert(!spec_overlaps(reg.coordinates, reg.dimensions, pre.lands[j].coordinates, pre.lands[j].dimensions));
        } else {
            assert(!spec_overlaps(reg.coordinates, reg.dimensions, pre.lands[i].coordinates, pre.lands[i].dimensions));
            crate::spatial::lemma_overlap_symmetric(
                reg.coordinates,
                reg.dimensions,
                pre.lands[i].coordinates,
                pre.lands[i].dimensions,
            );
        }
    }
    assert forall|i: int| 0 <= i < post.listings.len() implies listing_wf_at(
        lands2,
        #[trigger] post.listings[i],
    ) by {
        let l = pre.listings[i];
        assert(listing_wf_at(pre.lands, l));
        let j = choose|j: int| 0 <= j < pre.lands.len() && (#[trigger] pre.lands[j]).id == l.land_id;
        assert(lands2[j].id == l.land_id);
        assert(pre.lands[j].id < pre.next_id);
        assert forall|j2: int|
            0 <= j2 < lands2.len() && (#[trigger] lands2[j2]).id == l.land_id implies
            lands2[j2].owner == l.seller by {
            if j2 < n {
                assert(pre.lands[j2].id == l.land_id);
            } else {
                assert(lands2[j2] == nl);
                assert(nl.id == pre.next_id);
            }
        }
    }
}

/// Dropping the listing for a parcel keeps the registry well-formed.
pub proof fn lemma_remove_from_sale_preserves_wf(pre: RegistryView, post: RegistryView, land_id: LandId)
    requires
        pre.wf(),
        post.lands == pre.lands,
        post.listings == remove_listing(pre.listings, land_id),
        post.next_id == pre.next_id,
    ensures
        post.wf(),
{
    lemma_remove_listing_props(pre.listings, land_id);
    assert forall|i: int| 0 <= i < post.listings.len() implies listing_wf_at(
        post.lands,
        #[trigger] post.listings[i],
    ) by {
        assert(pre.listings.contains(post.listings[i]));
        let j = choose|j: int| 0 <= j < pre.listings.len() && pre.listings[j] == post.listings[i];
        assert(listing_wf_at(pre.lands, pre.listings[j]));
    }
}

/// A fresh listing by the parcel's owner at a positive price keeps the
/// registry well-formed.
pub proof fn lemma_list_for_sale_preserves_wf(
    pre: RegistryView,
    post: RegistryView,
    caller: PrincipalId,
    land_id: LandId,
    price: Price,
    now: Timestamp,
)
    requires
        pre.wf(),
        has_land(pre.lands, land_id),
        land_at(pre.lands, land_id).owner == caller,
        price > 0,
        post.lands == pre.lands,
        post.listings == remove_listing(pre.listings, land_id).push(
            MarketplaceListingView {
                land_id,
                seller: caller,
                price,
                listed_at: now,
                land_info: land_at(pre.lands, land_id),
            },
        ),
        post.next_id == pre.next_id,
    ensures
        post.wf(),
{
    lemma_remove_listing_props(pre.listings, land_id);
    lemma_land_index_unique(pre.lands, land_id);
    let removed = remove_listing(pre.listings, land_id);
    let nl = MarketplaceListingView {
        land_id,
        seller: caller,
        price,
        listed_at: now,
        land_info: land_at(pre.lands, land_id),
    };
    let m = removed.len() as int;
    assert(forall|k: int| 0 <= k < m ==> post.listings[k] == #[trigger] removed[k]);
    assert(post.listings[m] == nl);
    assert forall|i: int, j: int|
        #![trigger post.listings[i], post.listings[j]]
        0 <= i < post.listings.len() && 0 <= j < post.listings.len() && i != j implies
        post.listings[i].land_id != post.listings[j].land_id by {
        if i < m && j < m {
            assert(removed[i].land_id != removed[j].land_id);
        } else if i == m {
            assert(removed[j].land_id != land_id);
        } else {
            assert(removed[i].land_id != land_id);
        }
    }
    assert forall|i: int| 0 <= i < post.listings.len() implies listing_wf_at(
        post.lands,
        #[trigger] post.listings[i],
    ) by {
        if i < m {
            assert(pre.listings.contains(removed[i]));
            let j = choose|j: int|
                0 <= j < pre.listings.len() && pre.listings[j] == removed[i];
            assert(listing_wf_at(pre.lands, pre.listings[j]));
        } else {
            assert(post.listings[i] == nl);
            assert(pre.lands[land_index(pre.lands, land_id)].id == land_id);
            assert forall|j2: int|
                0 <= j2 < pre.lands.len() && (#[trigger] pre.lands[j2]).id == land_id implies
                pre.lands[j2].owner == caller by {
                assert(j2 == land_index(pre.lands, land_id));
            }
        }
    }
}

/// Changing one parcel's owner (and dropping its listing) keeps the
/// registry well-formed.
pub proof fn lemma_owner_update_preserves_wf(
    pre: RegistryView,
    post: RegistryView,
    land_id: LandId,
    new_owner: PrincipalId,
    now: Timestamp,
)
    requires
        pre.wf(),
        has_land(pre.lands, land_id),
        post.lands == pre.lands.update(
            land_index(pre.lands, land_id),
            transferred(land_at(pre.lands, land_id), new_owner, now),
        ),
        post.listings == remove_listing(pre.listings, land_id),
        post.next_id == pre.next_id,
    ensures
        post.wf(),
{
    lemma_land_index_unique(pre.lands, land_id);
    lemma_remove_listing_props(pre.listings, land_id);
    let idx = land_index(pre.lands, land_id);
    assert(forall|k: int|
        0 <= k < post.lands.len() ==> (#[trigger] post.lands[k]).id == pre.lands[k].id
            && post.lands[k].coordinates == pre.lands[k].coordinates && post.lands[k].dimensions
            == pre.lands[k].dimensions && post.lands[k].description == pre.lands[k].description);
    assert forall|i: int| 0 <= i < post.lands.len() implies land_record_valid(
        #[trigger] post.lands[i],
    ) by {
        assert(land_record_valid(pre.lands[i]));
    }
    assert forall|i: int, j: int|
        #![trigger post.lands[i], post.lands[j]]
        0 <= i < post.lands.len() && 0 <= j < post.lands.len() && i != j implies !spec_overlaps(
        post.lands[i].coordinates,
        post.lands[i].dimensions,
        post.lands[j].coordinates,
        post.lands[j].dimensions,
    ) by {
        assert(pre.lands[i] == #[trigger] pre.lands[i]);
        assert(pre.lands[j] == #[trigger] pre.lands[j]);
        assert(!spec_overlaps(
            pre.lands[i].coordinates,
            pre.lands[i].dimensions,
            pre.lands[j].coordinates,
            pre.lands[j].dimensions,
        ));
    }
    assert forall|i: int, j: int|
        #![trigger post.lands[i], post.lands[j]]
        0 <= i < post.lands.len() && 0 <= j < post.lands.len() && i != j implies post.lands[i].id
        != post.lands[j].id by {
        assert(pre.lands[i].id != pre.lands[j].id);
    }
    assert forall|i: int| 0 <= i < post.lands.len() implies (#[trigger] post.lands[i]).id
        < post.next_id by {
        assert(pre.lands[i].id < pre.next_id);
    }
    assert forall|i: int| 0 <= i < post.listings.len() implies listing_wf_at(
        post.lands,
        #[trigger] post.listings[i],
    ) by {
        let l = post.listings[i];
        assert(pre.listings.contains(l));
        let j = choose|j: int| 0 <= j < pre.listings.len() && pre.listings[j] == l;
        assert(listing_wf_at(pre.lands, pre.listings[j]));
        assert(l.land_id != land_id);
        let w = choose|w: int| 0 <= w < pre.lands.len() && (#[trigger] pre.lands[w]).id == l.land_id;
        assert(post.lands[w].id == l.land_id);
        assert forall|j2: int|
            0 <= j2 < post.lands.len() && (#[trigger] post.lands[j2]).id == l.land_id implies
            post.lands[j2].owner == l.seller by {
            assert(pre.lands[j2].id == l.land_id);
            if j2 == idx {
                assert(pre.lands[idx].id == land_id);
            } else {
                assert(post.lands[j2] == pre.lands[j2]);
            }
        }
    }
}

/// Replacing one parcel's metadata keeps the registry well-formed.
pub proof fn lemma_metadata_update_preserves_wf(
    pre: RegistryView,
    post: RegistryView,
    land_id: LandId,
    m: LandMetadataView,
    now: Timestamp,
)
    requires
        pre.wf(),
        has_land(pre.lands, land_id),
        post.lands == pre.lands.update(
            land_index(pre.lands, land_id),
            with_metadata(land_at(pre.lands, land_id), m, now),
        ),
        post.listings == pre.listings,
        post.next_id == pre.next_id,
    ensures
        post.wf(),
{
    lemma_land_index_unique(pre.lands, land_id);
    let idx = land_index(pre.lands, land_id);
    assert(forall|k: int|
        0 <= k < post.lands.len() ==> (#[trigger] post.lands[k]).id == pre.lands[k].id
            && post.lands[k].owner == pre.lands[k].owner && post.lands[k].coordinates
            == pre.lands[k].coordinates && post.lands[k].dimensions == pre.lands[k].dimensions
            && post.lands[k].description == pre.lands[k].description);
    assert forall|i: int| 0 <= i < post.lands.len() implies land_record_valid(
        #[trigger] post.lands[i],
    ) by {
        assert(land_record_valid(pre.lands[i]));
    }
    assert forall|i: int, j: int|
        #![trigger post.lands[i], post.lands[j]]
        0 <= i < post.lands.len() && 0 <= j < post.lands.len() && i != j implies !spec_overlaps(
        post.lands[i].coordinates,
        post.lands[i].dimensions,
        post.lands[j].coordinates,
        post.lands[j].dimensions,
    ) by {
        assert(!spec_overlaps(
            pre.lands[i].coordinates,
            pre.lands[i].dimensions,
            pre.lands[j].coordinates,
            pre.lands[j].dimensions,
        ));
    }
    assert forall|i: int, j: int|
        #![trigger post.lands[i], post.lands[j]]
        0 <= i < post.lands.len() && 0 <= j < post.lands.len() && i != j implies post.lands[i].id
        != post.lands[j].id by {
        assert(pre.lands[i].id != pre.lands[j].id);
    }
    assert forall|i: int| 0 <= i < post.lands.len() implies (#[trigger] post.lands[i]).id
        < post.next_id by {
        assert(pre.lands[i].id < pre.next_id);
    }
    assert forall|i: int| 0 <= i < post.listings.len() implies listing_wf_at(
        post.lands,
        #[trigger] post.listings[i],
    ) by {
        let l = pre.listings[i];
        assert(listing_wf_at(pre.lands, l));
        let w = choose|w: int| 0 <= w < pre.lands.len() && (#[trigger] pre.lands[w]).id == l.land_id;
        assert(post.lands[w].id == l.land_id);
        assert forall|j2: int|
            0 <= j2 < post.lands.len() && (#[trigger] post.lands[j2]).id == l.land_id implies
            post.lands[j2].owner == l.seller by {
            assert(pre.lands[j2].id == l.land_id);
        }
    }
}

/// Deleting a parcel together with its listing keeps the registry
/// well-formed.
pub proof fn lemma_remove_land_preserves_wf(pre: RegistryView, post: RegistryView, land_id: LandId)
    requires
        pre.wf(),
        post.lands == remove_land_seq(pre.lands, land_id),
        post.listings == remove_listing(pre.listings, land_id),
        post.next_id == pre.next_id,
    ensures
        post.wf(),
{
    lemma_remove_land_props(pre.lands, land_id);
    lemma_remove_listing_props(pre.listings, land_id);
    if has_land(pre.lands, land_id) {
        lemma_land_index_unique(pre.lands, land_id);
        let idx = land_index(pre.lands, land_id);
        pre.lands.remove_ensures(idx);
        assert forall|i: int, j: int|
            #![trigger post.lands[i], post.lands[j]]
            0 <= i < post.lands.len() && 0 <= j < post.lands.len() && i != j implies !spec_overlaps(
            post.lands[i].coordinates,
            post.lands[i].dimensions,
            post.lands[j].coordinates,
            post.lands[j].dimensions,
        ) by {
            let i0 = if i < idx { i } else { i + 1 };
            let j0 = if j < idx { j } else { j + 1 };
            assert(post.lands[i] == pre.lands[i0]);
            assert(post.lands[j] == pre.lands[j0]);
        }
    }
    assert forall|i: int| 0 <= i < post.lands.len() implies land_record_valid(#[trigger] post.lands[i])
        && post.lands[i].id < post.next_id by {
        assert(pre.lands.contains(post.lands[i]));
        let j = choose|j: int| 0 <= j < pre.lands.len() && pre.lands[j] == post.lands[i];
        assert(land_record_valid(pre.lands[j]));
        assert(pre.lands[j].id < pre.next_id);
    }
    assert forall|i: int| 0 <= i < post.listings.len() implies listing_wf_at(
        post.lands,
        #[trigger] post.listings[i],
    ) by {
        let l = post.listings[i];
        assert(pre.listings.contains(l));
        let j = choose|j: int| 0 <= j < pre.listings.len() && pre.listings[j] == l;
        assert(listing_wf_at(pre.lands, pre.listings[j]));
        assert(l.land_id != land_id);
        assert(has_land(post.lands, l.land_id));
        assert forall|j2: int|
            0 <= j2 < post.lands.len() && (#[trigger] post.lands[j2]).id == l.land_id implies
            post.lands[j2].owner == l.seller by {
            assert(pre.lands.contains(post.lands[j2]));
            let w = choose|w: int| 0 <= w < pre.lands.len() && pre.lands[w] == post.lands[j2];
            assert(pre.lands[w].id == l.land_id);
        }
    }
}

/// Restoring a validated snapshot, with inconsistent listings pruned and
/// the counter raised, keeps the registry well-formed.
pub proof fn lemma_restore_preserves_wf(pre: RegistryView, post: RegistryView, lands: Seq<LandInfoView>)
    requires
        pre.wf(),
        restorable(lands),
        post.lands == lands,
        post.listings == consistent_listings(lands, pre.listings),
        post.next_id == raised_next_id(pre.next_id, lands),
    ensures
        post.wf(),
{
    lemma_raised_next_id(pre.next_id, lands);
    lemma_consistent_listings_props(lands, pre.listings);
}

} // verus!
