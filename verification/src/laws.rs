//! Registry-wide laws, proved over the abstract model: consistency of the
//! derived ownership index, spatial exclusivity, idempotence of listing
//! withdrawal, and the backup/restore round trip.

use vstd::prelude::*;

use crate::model::coordinate_index;
use crate::model::has_land;
use crate::model::has_listing;
use crate::model::land_at;
use crate::model::land_index;
use crate::model::lemma_consistent_listings_all;
use crate::model::lemma_land_index_unique;
use crate::model::lemma_raised_next_id_fixed;
use crate::model::lemma_remove_listing_props;
use crate::model::new_land_view;
use crate::model::owner_holdings;
use crate::model::owner_set;
use crate::model::register_land_spec;
use crate::model::remove_from_sale_spec;
use crate::model::restorable;
use crate::model::restore_lands_spec;
use crate::model::RegistryView;
use crate::spatial::spec_overlaps;
use crate::spatial::spec_touching;
use crate::types::Coordinates;
use crate::types::Dimensions;
use crate::types::LandId;
use crate::types::LandRegistrationView;
use crate::types::LandRegistryError;
use crate::types::PrincipalId;
use crate::types::Timestamp;

verus! {

/// The derived OwnershipIndex is bidirectionally consistent with the land
/// store: an identifier sits in an owner's bucket exactly when the store
/// holds a record with that identifier whose owner field is that owner,
/// and an owner has a bucket exactly when they hold some parcel.
pub proof fn lemma_ownership_index_consistent(v: RegistryView)
    requires
        v.wf(),
    ensures
        forall|owner: PrincipalId, id: LandId|
            #[trigger] owner_holdings(v.lands, owner).contains(id) <==> (has_land(v.lands, id)
                && land_at(v.lands, id).owner == owner),
        forall|owner: PrincipalId|
            #[trigger] owner_set(v.lands).contains(owner) <==> exists|id: LandId|
                #[trigger] owner_holdings(v.lands, owner).contains(id),
{
    assert forall|owner: PrincipalId|
        #[trigger] owner_set(v.lands).contains(owner) <==> exists|id: LandId|
            #[trigger] owner_holdings(v.lands, owner).contains(id) by {
        if owner_set(v.lands).contains(owner) {
            let i = choose|i: int| 0 <= i < v.lands.len() && (#[trigger] v.lands[i]).owner == owner;
            let id = v.lands[i].id;
            lemma_land_index_unique(v.lands, id);
            assert(land_at(v.lands, id) == v.lands[i]);
            assert(owner_holdings(v.lands, owner).contains(id));
        }
        if exists|id: LandId| #[trigger] owner_holdings(v.lands, owner).contains(id) {
            let id = choose|id: LandId| #[trigger] owner_holdings(v.lands, owner).contains(id);
            lemma_land_index_unique(v.lands, id);
            let i = land_index(v.lands, id);
            assert(v.lands[i].owner == owner);
        }
    }
}

/// Spatial exclusivity: no two distinct parcels in a well-formed registry
/// have overlapping bounding boxes.
pub proof fn lemma_lands_never_overlap(v: RegistryView)
    requires
        v.wf(),
    ensures
        forall|i: int, j: int|
            #![trigger v.lands[i], v.lands[j]]
            0 <= i < v.lands.len() && 0 <= j < v.lands.len() && i != j ==> !spec_overlaps(
                v.lands[i].coordinates,
                v.lands[i].dimensions,
                v.lands[j].coordinates,
                v.lands[j].dimensions,
            ),
{
}

/// Boxes that exactly share a face (zero gap on some axis) never count as
/// overlapping, whatever happens on the other axes.
pub proof fn lemma_touching_boxes_do_not_overlap(
    c1: Coordinates,
    d1: Dimensions,
    c2: Coordinates,
    d2: Dimensions,
)
    requires
        spec_touching(c1, d1, c2, d2),
    ensures
        !spec_overlaps(c1, d1, c2, d2),
{
}

/// Registering a valid, non-blank parcel succeeds when every existing
/// parcel either exactly touches the new box (shares a face, zero gap)
/// or stays clear of it: touching is never counted as overlap.  The one
/// added assumption is the machine limit that the 64-bit identifier
/// counter is not exhausted.
pub proof fn lemma_touching_registration_succeeds(
    pre: RegistryView,
    post: RegistryView,
    caller: PrincipalId,
    reg: LandRegistrationView,
    now: Timestamp,
    r: Result<LandId, LandRegistryError>,
)
    requires
        pre.wf(),
        register_land_spec(pre, post, caller, reg, now, r),
        crate::spatial::spec_valid_coordinates(reg.coordinates),
        crate::spatial::spec_valid_dimensions(reg.dimensions),
        !crate::text::spec_is_blank(reg.description),
        pre.next_id < LandId::MAX,
        forall|i: int|
            0 <= i < pre.lands.len() ==> spec_touching(
                reg.coordinates,
                reg.dimensions,
                (#[trigger] pre.lands[i]).coordinates,
                pre.lands[i].dimensions,
            ) || !spec_overlaps(
                reg.coordinates,
                reg.dimensions,
                pre.lands[i].coordinates,
                pre.lands[i].dimensions,
            ),
    ensures
        r == Ok::<LandId, LandRegistryError>(pre.next_id),
        post.lands == pre.lands.push(new_land_view(pre.next_id, caller, reg, now)),
{
    assert forall|i: int| 0 <= i < pre.lands.len() implies !spec_overlaps(
        reg.coordinates,
        reg.dimensions,
        (#[trigger] pre.lands[i]).coordinates,
        pre.lands[i].dimensions,
    ) by {
        if spec_touching(
            reg.coordinates,
            reg.dimensions,
            pre.lands[i].coordinates,
            pre.lands[i].dimensions,
        ) {
            lemma_touching_boxes_do_not_overlap(
                reg.coordinates,
                reg.dimensions,
                pre.lands[i].coordinates,
                pre.lands[i].dimensions,
            );
        }
    }
    assert(!crate::spatial::spec_any_overlap(pre.lands, reg.coordinates, reg.dimensions));
}

/// Withdrawing a listing is idempotent in outcome: after a successful
/// `remove_from_sale`, an immediate second call by anyone fails with
/// `LandNotForSale` and changes nothing.
pub proof fn lemma_remove_from_sale_idempotent(
    s0: RegistryView,
    s1: RegistryView,
    s2: RegistryView,
    caller: PrincipalId,
    again: PrincipalId,
    land_id: LandId,
    r1: Result<(), LandRegistryError>,
    r2: Result<(), LandRegistryError>,
)
    requires
        s0.wf(),
        remove_from_sale_spec(s0, s1, caller, land_id, r1),
        r1 == Ok::<(), LandRegistryError>(()),
        remove_from_sale_spec(s1, s2, again, land_id, r2),
    ensures
        r2 == Err::<(), LandRegistryError>(LandRegistryError::LandNotForSale),
        s2 == s1,
{
    lemma_remove_listing_props(s0.listings, land_id);
    assert(!has_listing(s1.listings, land_id));
}

/// Restoring a backup taken in the same state is the identity: the land
/// store, the listings, the counter, the ledger, the admin set, and both
/// derived indices all come back unchanged.
pub proof fn lemma_backup_restore_round_trip(
    s0: RegistryView,
    s1: RegistryView,
    caller: PrincipalId,
    r: Result<(), LandRegistryError>,
)
    requires
        s0.wf(),
        s0.admins.contains(caller),
        restore_lands_spec(s0, s1, caller, s0.lands, r),
    ensures
        r == Ok::<(), LandRegistryError>(()),
        s1.lands == s0.lands,
        s1.listings == s0.listings,
        s1.ledger == s0.ledger,
        s1.next_id == s0.next_id,
        s1.admins == s0.admins,
        forall|owner: PrincipalId|
            #[trigger] owner_holdings(s1.lands, owner) == owner_holdings(s0.lands, owner),
        coordinate_index(s1.lands) == coordinate_index(s0.lands),
{
    assert(restorable(s0.lands));
    lemma_raised_next_id_fixed(s0.next_id, s0.lands);
    lemma_consistent_listings_all(s0.lands, s0.listings);
    assert(s1.next_id == s0.next_id);
}

} // verus!
