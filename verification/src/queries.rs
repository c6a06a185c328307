//! Read-only views of the registry: lookups, searches, history, and
//! statistics.  Every result is pinned to a spec-level filter or fold
//! over the abstract state.

use vstd::prelude::*;

use crate::model::has_listing;
use crate::model::lands_in_coord_range;
use crate::model::lands_near;
use crate::model::lands_of_owner;
use crate::model::lands_of_type;
use crate::model::lemma_listing_index_unique;
use crate::model::listing_at;
use crate::model::listings_of_type;
use crate::model::matches_filters_land;
use crate::model::matches_filters_listing;
use crate::model::owner_count;
use crate::model::price_history_result;
use crate::model::search_lands_result;
use crate::model::search_marketplace_result;
use crate::model::sum_prices;
use crate::model::total_area;
use crate::model::txs_for_land;
use crate::model::txs_of_user;
use crate::registry::RegistryState;
use crate::text::str_contains_sub;
use crate::types::Coordinates;
use crate::types::LandId;
use crate::types::LandInfo;
use crate::types::LandStatistics;
use crate::types::LandType;
use crate::types::MarketplaceListing;
use crate::types::PrincipalId;
use crate::types::Price;
use crate::types::SearchFilters;
use crate::types::Timestamp;
use crate::types::TransactionRecord;

verus! {

broadcast use {
    vstd::seq_lib::group_filter_ensures,
    Seq::lemma_filter_push,
    Seq::lemma_filter_len_push,
};

/// Ground area of a record, computed in 64 bits so it never overflows.
fn area_u64(d: &crate::types::Dimensions) -> (r: u64)
    ensures
        r as int == crate::spatial::spec_area(*d),
{
    let w: u64 = d.width as u64;
    let h: u64 = d.height as u64;
    proof {
        assert((w as int) * (h as int) <= u64::MAX as int) by (nonlinear_arith)
            requires
                w <= u32::MAX as u64,
                h <= u32::MAX as u64,
        ;
    }
    w * h
}

/// True iff some recorded feature has `needle` as a substring.
fn any_feature_contains(features: &Vec<String>, needle: &str) -> (r: bool)
    ensures
        r == crate::model::feature_satisfied(features.deep_view(), needle@),
{
    let mut k: usize = 0;
    while k < features.len()
        invariant
            0 <= k <= features@.len(),
            forall|k2: int|
                0 <= k2 < k ==> !crate::text::spec_contains_sub(
                    #[trigger] features.deep_view()[k2],
                    needle@,
                ),
        decreases features@.len() - k,
    {
        if str_contains_sub(features[k].as_str(), needle) {
            proof {
                assert(features.deep_view()[k as int] == features@[k as int]@);
            }
            return true;
        }
        proof {
            assert(features.deep_view()[k as int] == features@[k as int]@);
        }
        k = k + 1;
    }
    false
}

/// Decides [`matches_filters_land`] for one record.
#[verifier::loop_isolation(false)]
fn land_matches_filters(land: &LandInfo, filters: &SearchFilters) -> (r: bool)
    ensures
        r == matches_filters_land(land.deep_view(), filters.deep_view()),
{
    match &filters.land_type {
        Option::Some(t) => {
            if land.land_type != *t {
                return false;
            }
        },
        Option::None => {
        },
    }
    match &filters.min_area {
        Option::Some(a) => {
            let area: u64 = area_u64(&land.dimensions);
            if area < *a as u64 {
                return false;
            }
        },
        Option::None => {
        },
    }
    match &filters.coordinates_range {
        Option::Some(range) => {
            let min = range.0;
            let max = range.1;
            if land.coordinates.x < min.x || land.coordinates.x > max.x || land.coordinates.y
                < min.y || land.coordinates.y > max.y || land.coordinates.z < min.z
                || land.coordinates.z > max.z {
                return false;
            }
        },
        Option::None => {
        },
    }
    match &filters.features {
        Option::Some(fs) => {
            match &land.metadata {
                Option::Some(m) => {
                    proof {
                        assert(land.deep_view().metadata == Option::Some(m.deep_view()));
                        assert(filters.deep_view().features == Option::Some(fs.deep_view()));
                    }
                    let mut j: usize = 0;
                    while j < fs.len()
                        invariant
                            0 <= j <= fs@.len(),
                            land.deep_view().metadata == Option::Some(m.deep_view()),
                            filters.deep_view().features == Option::Some(fs.deep_view()),
                            forall|j2: int|
                                #![trigger fs.deep_view()[j2]]
                                0 <= j2 < j ==> crate::model::feature_satisfied(
                                    m.deep_view().special_features,
                                    fs.deep_view()[j2],
                                ),
                        decreases fs@.len() - j,
                    {
                        let found = any_feature_contains(&m.special_features, fs[j].as_str());
                        proof {
                            assert(fs.deep_view()[j as int] == fs@[j as int]@);
                            assert(m.deep_view().special_features == m.special_features.deep_view());
                        }
                        if !found {
                            proof {
                                assert(filters.deep_view().features->0 == fs.deep_view());
                                assert(land.deep_view().metadata->0 == m.deep_view());
                                assert((filters.deep_view().features->0)[j as int]
                                    == fs.deep_view()[j as int]);
                                assert(!crate::model::feature_satisfied(
                                    (land.deep_view().metadata->0).special_features,
                                    (filters.deep_view().features->0)[j as int],
                                ));
                                assert(!matches_filters_land(land.deep_view(), filters.deep_view()));
                            }
                            return false;
                        }
                        j = j + 1;
                    }
                },
                Option::None => {
                    if fs.len() > 0 {
                        return false;
                    }
                },
            }
        },
        Option::None => {
        },
    }
    true
}

/// Decides [`matches_filters_listing`] for one listing.
#[verifier::loop_isolation(false)]
fn listing_matches_filters(listing: &MarketplaceListing, filters: &SearchFilters) -> (r: bool)
    ensures
        r == matches_filters_listing(listing.deep_view(), filters.deep_view()),
{
    match &filters.land_type {
        Option::Some(t) => {
            if listing.land_info.land_type != *t {
                return false;
            }
        },
        Option::None => {
        },
    }
    match &filters.min_price {
        Option::Some(p) => {
            if listing.price < *p {
                return false;
            }
        },
        Option::None => {
        },
    }
    match &filters.max_price {
        Option::Some(p) => {
            if listing.price > *p {
                return false;
            }
        },
        Option::None => {
        },
    }
    match &filters.min_area {
        Option::Some(a) => {
            let area: u64 = area_u64(&listing.land_info.dimensions);
            if area < *a as u64 {
                return false;
            }
        },
        Option::None => {
        },
    }
    match &filters.coordinates_range {
        Option::Some(range) => {
            let min = range.0;
            let max = range.1;
            let c = listing.land_info.coordinates;
            if c.x < min.x || c.x > max.x || c.y < min.y || c.y > max.y || c.z < min.z || c.z
                > max.z {
                return false;
            }
        },
        Option::None => {
        },
    }
    match &filters.features {
        Option::Some(fs) => {
            match &listing.land_info.metadata {
                Option::Some(m) => {
                    proof {
                        assert(listing.deep_view().land_info.metadata == Option::Some(
                            m.deep_view(),
                        ));
                        assert(filters.deep_view().features == Option::Some(fs.deep_view()));
                    }
                    let mut j: usize = 0;
                    while j < fs.len()
                        invariant
                            0 <= j <= fs@.len(),
                            listing.deep_view().land_info.metadata == Option::Some(m.deep_view()),
                            filters.deep_view().features == Option::Some(fs.deep_view()),
                            forall|j2: int|
                                #![trigger fs.deep_view()[j2]]
                                0 <= j2 < j ==> crate::model::feature_satisfied(
                                    m.deep_view().special_features,
                                    fs.deep_view()[j2],
                                ),
                        decreases fs@.len() - j,
                    {
                        let found = any_feature_contains(&m.special_features, fs[j].as_str());
                        proof {
                            assert(fs.deep_view()[j as int] == fs@[j as int]@);
                            assert(m.deep_view().special_features == m.special_features.deep_view());
                        }
                        if !found {
                            proof {
                                assert(filters.deep_view().features->0 == fs.deep_view());
                                assert(listing.deep_view().land_info.metadata->0 == m.deep_view());
                                assert((filters.deep_view().features->0)[j as int]
                                    == fs.deep_view()[j as int]);
                                assert(!crate::model::feature_satisfied(
                                    (listing.deep_view().land_info.metadata->0).special_features,
                                    (filters.deep_view().features->0)[j as int],
                                ));
                                assert(!matches_filters_listing(
                                    listing.deep_view(),
                                    filters.deep_view(),
                                ));
                            }
                            return false;
                        }
                        j = j + 1;
                    }
                },
                Option::None => {
                    if fs.len() > 0 {
                        return false;
                    }
                },
            }
        },
        Option::None => {
        },
    }
    true
}

impl RegistryState {
    /// The parcels owned by `owner`, copied, in store order.
    pub fn get_lands_by_owner(&self, owner: PrincipalId) -> (r: Vec<LandInfo>)
        ensures
            r.deep_view() == lands_of_owner(self@.lands, owner),
    {
        let ghost s = self@.lands;
        let mut r: Vec<LandInfo> = Vec::new();
        proof {
            reveal(Seq::filter);
            assert(r.deep_view() =~= lands_of_owner(s.take(0), owner));
        }
        let mut i: usize = 0;
        while i < self.lands.len()
            invariant
                0 <= i <= self.lands@.len(),
                s == self@.lands,
                r.deep_view() == lands_of_owner(s.take(i as int), owner),
            decreases self.lands@.len() - i,
        {
            proof {
                assert(s.take(i as int + 1) =~= s.take(i as int).push(s[i as int]));
            }
            if self.lands[i].owner == owner {
                let ghost r0 = r.deep_view();
                let c = self.lands[i].clone();
                assert(c.deep_view() == s[i as int]);
                r.push(c);
                assert(r.deep_view() =~= r0.push(s[i as int]));
            }
            i = i + 1;
        }
        proof {
            assert(s.take(s.len() as int) =~= s);
        }
        r
    }

    /// How many parcels `owner` holds: the size of the derived ownership
    /// bucket.
    pub fn get_land_count_by_owner(&self, owner: PrincipalId) -> (r: u64)
        ensures
            r == lands_of_owner(self@.lands, owner).len(),
    {
        let ghost s = self@.lands;
        let mut count: u64 = 0;
        proof {
            reveal(Seq::filter);
            assert(lands_of_owner(s.take(0), owner).len() == 0);
        }
        let mut i: usize = 0;
        while i < self.lands.len()
            invariant
                0 <= i <= self.lands@.len(),
                s == self@.lands,
                count == lands_of_owner(s.take(i as int), owner).len(),
                count <= i,
            decreases self.lands@.len() - i,
        {
            proof {
                assert(s.take(i as int + 1) =~= s.take(i as int).push(s[i as int]));
            }
            if self.lands[i].owner == owner {
                count = count + 1;
            }
            i = i + 1;
        }
        proof {
            assert(s.take(s.len() as int) =~= s);
        }
        count
    }

    /// The parcels of one zoning category, copied, in store order.
    pub fn get_lands_by_type(&self, land_type: LandType) -> (r: Vec<LandInfo>)
        ensures
            r.deep_view() == lands_of_type(self@.lands, land_type),
    {
        let ghost s = self@.lands;
        let mut r: Vec<LandInfo> = Vec::new();
        proof {
            reveal(Seq::filter);
            assert(r.deep_view() =~= lands_of_type(s.take(0), land_type));
        }
        let mut i: usize = 0;
        while i < self.lands.len()
            invariant
                0 <= i <= self.lands@.len(),
                s == self@.lands,
                r.deep_view() == lands_of_type(s.take(i as int), land_type),
            decreases self.lands@.len() - i,
        {
            proof {
                assert(s.take(i as int + 1) =~= s.take(i as int).push(s[i as int]));
            }
            if self.lands[i].land_type == land_type {
                let ghost r0 = r.deep_view();
                let c = self.lands[i].clone();
                assert(c.deep_view() == s[i as int]);
                r.push(c);
                assert(r.deep_view() =~= r0.push(s[i as int]));
            }
            i = i + 1;
        }
        proof {
            assert(s.take(s.len() as int) =~= s);
        }
        r
    }

    /// Every active listing, copied, in listing order.
    pub fn get_marketplace_listings(&self) -> (r: Vec<MarketplaceListing>)
        ensures
            r.deep_view() == self@.listings,
    {
        let mut r: Vec<MarketplaceListing> = Vec::new();
        let mut i: usize = 0;
        while i < self.listings.len()
            invariant
                0 <= i <= self.listings@.len(),
                r@.len() == i,
                forall|k: int|
                    0 <= k < i ==> #[trigger] r@[k].deep_view() == self.listings@[k].deep_view(),
            decreases self.listings@.len() - i,
        {
            let c = self.listings[i].clone();
            assert(c.deep_view() == self.listings@[i as int].deep_view());
            r.push(c);
            i = i + 1;
        }
        assert(r.deep_view() =~= self@.listings);
        r
    }

    /// The listing for one parcel, copied, if it is on sale.
    pub fn get_marketplace_listing(&self, land_id: LandId) -> (r: Option<MarketplaceListing>)
        requires
            self.inv(),
        ensures
            match r {
                Option::Some(l) => has_listing(self@.listings, land_id) && l.deep_view()
                    == listing_at(self@.listings, land_id),
                Option::None => !has_listing(self@.listings, land_id),
            },
    {
        let mut i: usize = 0;
        while i < self.listings.len()
            invariant
                self.inv(),
                0 <= i <= self.listings@.len(),
                forall|k: int| 0 <= k < i ==> (#[trigger] self@.listings[k]).land_id != land_id,
            decreases self.listings@.len() - i,
        {
            if self.listings[i].land_id == land_id {
                proof {
                    assert(self@.listings[i as int].land_id == land_id);
                    lemma_listing_index_unique(self@.listings, land_id);
                }
                return Option::Some(self.listings[i].clone());
            }
            i = i + 1;
        }
        Option::None
    }

    /// The listings whose snapshot has one zoning category, copied.
    pub fn get_lands_for_sale_by_type(&self, land_type: LandType) -> (r: Vec<MarketplaceListing>)
        ensures
            r.deep_view() == listings_of_type(self@.listings, land_type),
    {
        let ghost s = self@.listings;
        let mut r: Vec<MarketplaceListing> = Vec::new();
        proof {
            reveal(Seq::filter);
            assert(r.deep_view() =~= listings_of_type(s.take(0), land_type));
        }
        let mut i: usize = 0;
        while i < self.listings.len()
            invariant
                0 <= i <= self.listings@.len(),
                s == self@.listings,
                r.deep_view() == listings_of_type(s.take(i as int), land_type),
            decreases self.listings@.len() - i,
        {
            proof {
                assert(s.take(i as int + 1) =~= s.take(i as int).push(s[i as int]));
            }
            if self.listings[i].land_info.land_type == land_type {
                let ghost r0 = r.deep_view();
                let c = self.listings[i].clone();
                assert(c.deep_view() == s[i as int]);
                r.push(c);
                assert(r.deep_view() =~= r0.push(s[i as int]));
            }
            i = i + 1;
        }
        proof {
            assert(s.take(s.len() as int) =~= s);
        }
        r
    }

    /// The parcels passing the search criteria, copied, in store order.
    pub fn search_lands(&self, filters: SearchFilters) -> (r: Vec<LandInfo>)
        ensures
            r.deep_view() == search_lands_result(self@.lands, filters.deep_view()),
    {
        let ghost s = self@.lands;
        let ghost fv = filters.deep_view();
        let mut r: Vec<LandInfo> = Vec::new();
        proof {
            reveal(Seq::filter);
            assert(r.deep_view() =~= search_lands_result(s.take(0), fv));
        }
        let mut i: usize = 0;
        while i < self.lands.len()
            invariant
                0 <= i <= self.lands@.len(),
                s == self@.lands,
                fv == filters.deep_view(),
                r.deep_view() == search_lands_result(s.take(i as int), fv),
            decreases self.lands@.len() - i,
        {
            proof {
                assert(s.take(i as int + 1) =~= s.take(i as int).push(s[i as int]));
            }
            if land_matches_filters(&self.lands[i], &filters) {
                let ghost r0 = r.deep_view();
                let c = self.lands[i].clone();
                assert(c.deep_view() == s[i as int]);
                r.push(c);
                assert(r.deep_view() =~= r0.push(s[i as int]));
            }
            i = i + 1;
        }
        proof {
            assert(s.take(s.len() as int) =~= s);
        }
        r
    }

    /// The listings passing the search criteria, copied, in listing
    /// order.
    pub fn search_marketplace(&self, filters: SearchFilters) -> (r: Vec<MarketplaceListing>)
        ensures
            r.deep_view() == search_marketplace_result(self@.listings, filters.deep_view()),
    {
        let ghost s = self@.listings;
        let ghost fv = filters.deep_view();
        let mut r: Vec<MarketplaceListing> = Vec::new();
        proof {
            reveal(Seq::filter);
            assert(r.deep_view() =~= search_marketplace_result(s.take(0), fv));
        }
        let mut i: usize = 0;
        while i < self.listings.len()
            invariant
                0 <= i <= self.listings@.len(),
                s == self@.listings,
                fv == filters.deep_view(),
                r.deep_view() == search_marketplace_result(s.take(i as int), fv),
            decreases self.listings@.len() - i,
        {
            proof {
                assert(s.take(i as int + 1) =~= s.take(i as int).push(s[i as int]));
            }
            if listing_matches_filters(&self.listings[i], &filters) {
                let ghost r0 = r.deep_view();
                let c = self.listings[i].clone();
                assert(c.deep_view() == s[i as int]);
                r.push(c);
                assert(r.deep_view() =~= r0.push(s[i as int]));
            }
            i = i + 1;
        }
        proof {
            assert(s.take(s.len() as int) =~= s);
        }
        r
    }

    /// The parcels whose origin lies in the inclusive coordinate box,
    /// copied.
    pub fn search_by_coordinates(&self, min_coords: Coordinates, max_coords: Coordinates) -> (r: Vec<
        LandInfo,
    >)
        ensures
            r.deep_view() == lands_in_coord_range(self@.lands, min_coords, max_coords),
    {
        let ghost s = self@.lands;
        let mut r: Vec<LandInfo> = Vec::new();
        proof {
            reveal(Seq::filter);
            assert(r.deep_view() =~= lands_in_coord_range(s.take(0), min_coords, max_coords));
        }
        let mut i: usize = 0;
        while i < self.lands.len()
            invariant
                0 <= i <= self.lands@.len(),
                s == self@.lands,
                r.deep_view() == lands_in_coord_range(s.take(i as int), min_coords, max_coords),
            decreases self.lands@.len() - i,
        {
            proof {
                assert(s.take(i as int + 1) =~= s.take(i as int).push(s[i as int]));
            }
            let c = self.lands[i].coordinates;
            if c.x >= min_coords.x && c.x <= max_coords.x && c.y >= min_coords.y && c.y
                <= max_coords.y && c.z >= min_coords.z && c.z <= max_coords.z {
                let ghost r0 = r.deep_view();
                let cl = self.lands[i].clone();
                assert(cl.deep_view() == s[i as int]);
                r.push(cl);
                assert(r.deep_view() =~= r0.push(s[i as int]));
            }
            i = i + 1;
        }
        proof {
            assert(s.take(s.len() as int) =~= s);
        }
        r
    }

    /// The parcels whose origin lies within `radius` of `coords` on each
    /// axis independently, copied.
    pub fn get_lands_near_coordinates(&self, coords: Coordinates, radius: u32) -> (r: Vec<LandInfo>)
        ensures
            r.deep_view() == lands_near(self@.lands, coords, radius),
    {
        let ghost s = self@.lands;
        let mut r: Vec<LandInfo> = Vec::new();
        proof {
            reveal(Seq::filter);
            assert(r.deep_view() =~= lands_near(s.take(0), coords, radius));
        }
        let mut i: usize = 0;
        while i < self.lands.len()
            invariant
                0 <= i <= self.lands@.len(),
                s == self@.lands,
                r.deep_view() == lands_near(s.take(i as int), coords, radius),
            decreases self.lands@.len() - i,
        {
            proof {
                assert(s.take(i as int + 1) =~= s.take(i as int).push(s[i as int]));
            }
            let c = self.lands[i].coordinates;
            let dx: i64 = c.x as i64 - coords.x as i64;
            let dy: i64 = c.y as i64 - coords.y as i64;
            let dz: i64 = c.z as i64 - coords.z as i64;
            let rad: i64 = radius as i64;
            if -rad <= dx && dx <= rad && -rad <= dy && dy <= rad && -rad <= dz && dz <= rad {
                let ghost r0 = r.deep_view();
                let cl = self.lands[i].clone();
                assert(cl.deep_view() == s[i as int]);
                r.push(cl);
                assert(r.deep_view() =~= r0.push(s[i as int]));
            }
            i = i + 1;
        }
        proof {
            assert(s.take(s.len() as int) =~= s);
        }
        r
    }

    /// The ledger entries for one parcel, or the whole ledger, oldest
    /// first.
    pub fn get_transaction_history(&self, land_id: Option<LandId>) -> (r: Vec<TransactionRecord>)
        ensures
            match land_id {
                Option::Some(id) => r@ == txs_for_land(self@.ledger, id),
                Option::None => r@ == self@.ledger,
            },
    {
        let ghost s = self@.ledger;
        let mut r: Vec<TransactionRecord> = Vec::new();
        match land_id {
            Option::Some(id) => {
                proof {
                    reveal(Seq::filter);
                    assert(r@ =~= txs_for_land(s.take(0), id));
                }
                let mut i: usize = 0;
                while i < self.ledger.len()
                    invariant
                        0 <= i <= self.ledger@.len(),
                        s == self@.ledger,
                        r@ == txs_for_land(s.take(i as int), id),
                    decreases self.ledger@.len() - i,
                {
                    proof {
                        assert(s.take(i as int + 1) =~= s.take(i as int).push(s[i as int]));
                    }
                    if self.ledger[i].land_id == id {
                        r.push(self.ledger[i]);
                    }
                    i = i + 1;
                }
                proof {
                    assert(s.take(s.len() as int) =~= s);
                }
            },
            Option::None => {
                let mut i: usize = 0;
                while i < self.ledger.len()
                    invariant
                        0 <= i <= self.ledger@.len(),
                        s == self@.ledger,
                        r@ == s.take(i as int),
                    decreases self.ledger@.len() - i,
                {
                    proof {
                        assert(s.take(i as int + 1) =~= s.take(i as int).push(s[i as int]));
                    }
                    r.push(self.ledger[i]);
                    i = i + 1;
                }
                proof {
                    assert(s.take(s.len() as int) =~= s);
                }
            },
        }
        r
    }

    /// The (time, price) pairs of every priced ledger entry for one
    /// parcel, oldest first.
    pub fn get_price_history(&self, land_id: LandId) -> (r: Vec<(Timestamp, Price)>)
        ensures
            r@ == price_history_result(self@.ledger, land_id),
    {
        let ghost s = self@.ledger;
        let mut r: Vec<(Timestamp, Price)> = Vec::new();
        proof {
            reveal(Seq::filter);
            assert(r@ =~= price_history_result(s.take(0), land_id));
        }
        let mut i: usize = 0;
        while i < self.ledger.len()
            invariant
                0 <= i <= self.ledger@.len(),
                s == self@.ledger,
                r@ == price_history_result(s.take(i as int), land_id),
            decreases self.ledger@.len() - i,
        {
            proof {
                assert(s.take(i as int + 1) =~= s.take(i as int).push(s[i as int]));
            }
            let t = self.ledger[i];
            if t.land_id == land_id {
                match t.price {
                    Option::Some(p) => {
                        r.push((t.timestamp, p));
                        proof {
                            assert(price_history_result(s.take(i as int + 1), land_id) =~= r@);
                        }
                    },
                    Option::None => {
                        proof {
                            assert(price_history_result(s.take(i as int + 1), land_id) =~= r@);
                        }
                    },
                }
            } else {
                proof {
                    assert(price_history_result(s.take(i as int + 1), land_id) =~= r@);
                }
            }
            i = i + 1;
        }
        proof {
            assert(s.take(s.len() as int) =~= s);
        }
        r
    }

    /// The ledger entries `user` took part in, oldest first.
    pub fn get_user_transactions(&self, user: PrincipalId) -> (r: Vec<TransactionRecord>)
        ensures
            r@ == txs_of_user(self@.ledger, user),
    {
        let ghost s = self@.ledger;
        let mut r: Vec<TransactionRecord> = Vec::new();
        proof {
            reveal(Seq::filter);
            assert(r@ =~= txs_of_user(s.take(0), user));
        }
        let mut i: usize = 0;
        while i < self.ledger.len()
            invariant
                0 <= i <= self.ledger@.len(),
                s == self@.ledger,
                r@ == txs_of_user(s.take(i as int), user),
            decreases self.ledger@.len() - i,
        {
            proof {
                assert(s.take(i as int + 1) =~= s.take(i as int).push(s[i as int]));
            }
            if self.ledger[i].from == user || self.ledger[i].to == user {
                r.push(self.ledger[i]);
            }
            i = i + 1;
        }
        proof {
            assert(s.take(s.len() as int) =~= s);
        }
        r
    }

    /// The last `limit` ledger entries, in ledger order; the whole ledger
    /// when it is shorter than `limit`.
    pub fn get_recent_transactions(&self, limit: u64) -> (r: Vec<TransactionRecord>)
        ensures
            ({
                let n = self@.ledger.len() as int;
                let start = if n > limit { n - limit } else { 0 };
                r@ == self@.ledger.subrange(start, n)
            }),
    {
        let n = self.ledger.len();
        let start: usize = if (n as u64) > limit {
            n - limit as usize
        } else {
            0
        };
        let mut r: Vec<TransactionRecord> = Vec::new();
        let mut i: usize = start;
        while i < n
            invariant
                start <= i <= n,
                n == self.ledger@.len(),
                r@ == self@.ledger.subrange(start as int, i as int),
            decreases n - i,
        {
            r.push(self.ledger[i]);
            proof {
                assert(self@.ledger.subrange(start as int, i as int + 1) =~= self@.ledger.subrange(
                    start as int,
                    i as int,
                ).push(self@.ledger[i as int]));
            }
            i = i + 1;
        }
        proof {
            assert(r@ =~= self@.ledger.subrange(start as int, n as int));
        }
        r
    }

    /// Aggregate figures: parcel count, distinct-owner count, listing
    /// count, mean listing price (rounded down; absent when nothing is
    /// listed), and ledger length.
    pub fn get_land_statistics(&self) -> (r: LandStatistics)
        ensures
            r.total_lands == self@.lands.len(),
            r.total_owners == owner_count(self@.lands),
            r.lands_for_sale == self@.listings.len(),
            r.total_transactions == self@.ledger.len(),
            r.average_price == if self@.listings.len() == 0 {
                Option::<Price>::None
            } else {
                Option::Some((sum_prices(self@.listings) / self@.listings.len() as int) as Price)
            },
    {
        let total_lands = self.lands.len() as u64;
        let lands_for_sale = self.listings.len() as u64;
        let total_transactions = self.ledger.len() as u64;

        let ghost s = self@.lands;
        let mut total_owners: u64 = 0;
        let mut i: usize = 0;
        proof {
            assert(s.take(0) =~= Seq::<crate::types::LandInfoView>::empty());
        }
        while i < self.lands.len()
            invariant
                0 <= i <= self.lands@.len(),
                s == self@.lands,
                total_owners == owner_count(s.take(i as int)),
                total_owners <= i,
            decreases self.lands@.len() - i,
        {
            let mut seen = false;
            let mut j: usize = 0;
            while j < i
                invariant
                    0 <= j <= i < self.lands@.len(),
                    s == self@.lands,
                    seen == exists|k: int|
                        0 <= k < j && (#[trigger] s[k]).owner == s[i as int].owner,
                decreases i - j,
            {
                if self.lands[j].owner == self.lands[i].owner {
                    proof {
                        assert(s[j as int].owner == s[i as int].owner);
                    }
                    seen = true;
                } else {
                    proof {
                        assert(s[j as int].owner != s[i as int].owner);
                    }
                }
                j = j + 1;
            }
            proof {
                let t = s.take(i as int + 1);
                assert(t.drop_last() =~= s.take(i as int));
                assert(t.last() == s[i as int]);
                assert(forall|k: int|
                    0 <= k < i ==> (#[trigger] s.take(i as int)[k]) == s[k]);
                if seen {
                    let k = choose|k: int| 0 <= k < i && (#[trigger] s[k]).owner == s[i as int].owner;
                    assert(s.take(i as int)[k].owner == t.last().owner);
                } else {
                    assert forall|k: int| 0 <= k < s.take(i as int).len() implies (
                    #[trigger] s.take(i as int)[k]).owner != t.last().owner by {
                        assert(s[k] == s.take(i as int)[k]);
                    }
                }
                assert(owner_count(t) == owner_count(s.take(i as int)) + if seen {
                    0nat
                } else {
                    1nat
                });
            }
            if !seen {
                total_owners = total_owners + 1;
            }
            i = i + 1;
        }
        proof {
            assert(s.take(s.len() as int) =~= s);
        }

        let ghost ls = self@.listings;
        let mut total: u128 = 0;
        let mut k: usize = 0;
        proof {
            assert(ls.take(0) =~= Seq::<crate::types::MarketplaceListingView>::empty());
        }
        while k < self.listings.len()
            invariant
                0 <= k <= self.listings@.len(),
                ls == self@.listings,
                total as int == sum_prices(ls.take(k as int)),
                total as int <= (k as int) * (u64::MAX as int),
            decreases self.listings@.len() - k,
        {
            let p = self.listings[k].price;
            proof {
                let t = ls.take(k as int + 1);
                assert(t.drop_last() =~= ls.take(k as int));
                assert(t.last() == ls[k as int]);
            }
            total = total + p as u128;
            k = k + 1;
        }
        proof {
            assert(ls.take(ls.len() as int) =~= ls);
        }
        let average_price: Option<Price> = if lands_for_sale == 0 {
            Option::None
        } else {
            let count = self.listings.len() as u128;
            let avg = total / count;
            proof {
                let m = u64::MAX as int;
                let c = count as int;
                vstd::arithmetic::div_mod::lemma_div_is_ordered(total as int, c * m, c);
                vstd::arithmetic::div_mod::lemma_div_by_multiple(m, c);
                assert((m * c) / c == m);
                assert(c * m == m * c);
                assert(avg as int == sum_prices(ls) / c);
                assert(avg <= u64::MAX as u128);
            }
            Option::Some(avg as u64)
        };

        LandStatistics {
            total_lands,
            total_owners,
            lands_for_sale,
            average_price,
            total_transactions,
        }
    }

    /// The summed ground area of every parcel, saturating at the top of
    /// the 64-bit range.
    pub fn calculate_total_land_area(&self) -> (r: u64)
        ensures
            r as int == if total_area(self@.lands) <= u64::MAX as int {
                total_area(self@.lands)
            } else {
                u64::MAX as int
            },
    {
        let ghost s = self@.lands;
        let mut total: u128 = 0;
        let mut i: usize = 0;
        proof {
            assert(s.take(0) =~= Seq::<crate::types::LandInfoView>::empty());
        }
        while i < self.lands.len()
            invariant
                0 <= i <= self.lands@.len(),
                s == self@.lands,
                total as int == total_area(s.take(i as int)),
                total as int <= (i as int) * (u64::MAX as int),
            decreases self.lands@.len() - i,
        {
            let area: u64 = area_u64(&self.lands[i].dimensions);
            proof {
                let t = s.take(i as int + 1);
                assert(t.drop_last() =~= s.take(i as int));
                assert(t.last() == s[i as int]);
            }
            total = total + area as u128;
            i = i + 1;
        }
        proof {
            assert(s.take(s.len() as int) =~= s);
        }
        if total > u64::MAX as u128 {
            u64::MAX
        } else {
            total as u64
        }
    }
}

} // verus!
