//! Data model of the land registry: parcels, listings, transactions,
//! statistics, search filters, and the error taxonomy.
//!
//! Each type that carries heap data (`String`, `Vec`) has a hand-written
//! `Clone` whose contract promises that the clone's deep view equals the
//! original's, and a `DeepView` into a ghost mirror type over `Seq` so
//! that contracts can speak of values mathematically.

use vstd::prelude::*;

verus! {

/// Identity of a caller or owner, as handed in by the host after
/// authentication.  The registry only ever compares identities.
pub type PrincipalId = u64;

/// Unique identifier of a land parcel, assigned monotonically from 0.
pub type LandId = u64;

/// A sale price, in the host's currency unit.
pub type Price = u64;

/// A point in time, as handed in by the host clock.
pub type Timestamp = u64;

/// The identity recorded as the sender of a registration transaction:
/// a parcel springs into existence rather than arriving from anyone.
pub const NO_SENDER: PrincipalId = 0;

/// Origin corner of a parcel's axis-aligned bounding box.
#[derive(Clone, Copy, Debug, PartialEq, Eq, Structural)]
pub struct Coordinates {
    pub x: i32,
    pub y: i32,
    pub z: i32,
}

/// Extent of a parcel's bounding box from its origin corner.
#[derive(Clone, Copy, Debug, PartialEq, Eq, Structural)]
pub struct Dimensions {
    pub width: u32,
    pub height: u32,
    pub depth: u32,
}

/// Zoning category of a parcel; a tag only, no payload.
#[derive(Clone, Copy, Debug, PartialEq, Eq, Structural)]
pub enum LandType {
    Residential,
    Commercial,
    Industrial,
    Agricultural,
    Entertainment,
    Mixed,
}

/// Optional free-form annotation on a parcel.
#[derive(Debug)]
pub struct LandMetadata {
    pub environment: Option<String>,
    pub special_features: Vec<String>,
    pub access_roads: Vec<String>,
    pub utilities: Vec<String>,
}

/// Ghost mirror of [`LandMetadata`] over sequences.
pub ghost struct LandMetadataView {
    pub environment: Option<Seq<char>>,
    pub special_features: Seq<Seq<char>>,
    pub access_roads: Seq<Seq<char>>,
    pub utilities: Seq<Seq<char>>,
}

impl DeepView for LandMetadata {
    type V = LandMetadataView;

    open spec fn deep_view(&self) -> LandMetadataView {
        LandMetadataView {
            environment: self.environment.deep_view(),
            special_features: self.special_features.deep_view(),
            access_roads: self.access_roads.deep_view(),
            utilities: self.utilities.deep_view(),
        }
    }
}

/// A stored land record: the authoritative description of one parcel.
#[derive(Debug)]
pub struct LandInfo {
    pub id: LandId,
    pub owner: PrincipalId,
    pub coordinates: Coordinates,
    pub dimensions: Dimensions,
    pub land_type: LandType,
    pub description: String,
    pub metadata: Option<LandMetadata>,
    pub created_at: Timestamp,
    pub last_updated: Timestamp,
}

/// Ghost mirror of [`LandInfo`].
pub ghost struct LandInfoView {
    pub id: LandId,
    pub owner: PrincipalId,
    pub coordinates: Coordinates,
    pub dimensions: Dimensions,
    pub land_type: LandType,
    pub description: Seq<char>,
    pub metadata: Option<LandMetadataView>,
    pub created_at: Timestamp,
    pub last_updated: Timestamp,
}

impl DeepView for LandInfo {
    type V = LandInfoView;

    open spec fn deep_view(&self) -> LandInfoView {
        LandInfoView {
            id: self.id,
            owner: self.owner,
            coordinates: self.coordinates,
            dimensions: self.dimensions,
            land_type: self.land_type,
            description: self.description@,
            metadata: self.metadata.deep_view(),
            created_at: self.created_at,
            last_updated: self.last_updated,
        }
    }
}

/// A registration request: everything of a [`LandInfo`] that the caller
/// chooses; identifier, owner and timestamps are assigned by the registry.
#[derive(Debug)]
pub struct LandRegistration {
    pub coordinates: Coordinates,
    pub dimensions: Dimensions,
    pub land_type: LandType,
    pub description: String,
    pub metadata: Option<LandMetadata>,
}

/// Ghost mirror of [`LandRegistration`].
pub ghost struct LandRegistrationView {
    pub coordinates: Coordinates,
    pub dimensions: Dimensions,
    pub land_type: LandType,
    pub description: Seq<char>,
    pub metadata: Option<LandMetadataView>,
}

impl DeepView for LandRegistration {
    type V = LandRegistrationView;

    open spec fn deep_view(&self) -> LandRegistrationView {
        LandRegistrationView {
            coordinates: self.coordinates,
            dimensions: self.dimensions,
            land_type: self.land_type,
            description: self.description@,
            metadata: self.metadata.deep_view(),
        }
    }
}

/// An active offer to sell one parcel at a fixed price.  `land_info` is a
/// snapshot of the record at listing time and is not re-synced afterwards.
#[derive(Debug)]
pub struct MarketplaceListing {
    pub land_id: LandId,
    pub seller: PrincipalId,
    pub price: Price,
    pub listed_at: Timestamp,
    pub land_info: LandInfo,
}

/// Ghost mirror of [`MarketplaceListing`].
pub ghost struct MarketplaceListingView {
    pub land_id: LandId,
    pub seller: PrincipalId,
    pub price: Price,
    pub listed_at: Timestamp,
    pub land_info: LandInfoView,
}

impl DeepView for MarketplaceListing {
    type V = MarketplaceListingView;

    open spec fn deep_view(&self) -> MarketplaceListingView {
        MarketplaceListingView {
            land_id: self.land_id,
            seller: self.seller,
            price: self.price,
            listed_at: self.listed_at,
            land_info: self.land_info.deep_view(),
        }
    }
}

/// Kind of a ledger entry.
#[derive(Clone, Copy, Debug, PartialEq, Eq, Structural)]
pub enum TransactionType {
    Registration,
    Transfer,
    Sale,
}

/// One immutable entry of the append-only transaction ledger.
/// For registrations `from` is the sentinel [`NO_SENDER`]; `price` is
/// present exactly for sales.
#[derive(Clone, Copy, Debug, PartialEq, Eq)]
pub struct TransactionRecord {
    pub land_id: LandId,
    pub from: PrincipalId,
    pub to: PrincipalId,
    pub price: Option<Price>,
    pub transaction_type: TransactionType,
    pub timestamp: Timestamp,
}

/// Aggregate figures over the whole registry.
#[derive(Clone, Copy, Debug, PartialEq, Eq)]
pub struct LandStatistics {
    pub total_lands: u64,
    pub total_owners: u64,
    pub lands_for_sale: u64,
    pub average_price: Option<Price>,
    pub total_transactions: u64,
}

/// Conjunctive search criteria; a `None` field does not constrain.
#[derive(Debug)]
pub struct SearchFilters {
    pub land_type: Option<LandType>,
    pub min_price: Option<Price>,
    pub max_price: Option<Price>,
    pub coordinates_range: Option<(Coordinates, Coordinates)>,
    pub min_area: Option<u32>,
    pub features: Option<Vec<String>>,
}

/// Ghost mirror of [`SearchFilters`].
pub ghost struct SearchFiltersView {
    pub land_type: Option<LandType>,
    pub min_price: Option<Price>,
    pub max_price: Option<Price>,
    pub coordinates_range: Option<(Coordinates, Coordinates)>,
    pub min_area: Option<u32>,
    pub features: Option<Seq<Seq<char>>>,
}

impl DeepView for SearchFilters {
    type V = SearchFiltersView;

    open spec fn deep_view(&self) -> SearchFiltersView {
        SearchFiltersView {
            land_type: self.land_type,
            min_price: self.min_price,
            max_price: self.max_price,
            coordinates_range: self.coordinates_range,
            min_area: self.min_area,
            features: match self.features {
                Option::Some(f) => Option::Some(f.deep_view()),
                Option::None => Option::None,
            },
        }
    }
}

/// Everything that can go wrong, each variant naming exactly the
/// condition that produced it.  `InsufficientFunds` and `OwnershipError`
/// are reserved for payment enforcement and are never raised here.
#[derive(Clone, Copy, Debug, PartialEq, Eq, Structural)]
pub enum LandRegistryError {
    LandNotFound,
    Unauthorized,
    LandAlreadyExists,
    InvalidCoordinates,
    InvalidDimensions,
    InsufficientFunds,
    LandNotForSale,
    OwnershipError,
    InvalidInput,
}

/// Clones a vector of strings, keeping every character.
pub fn clone_string_vec(v: &Vec<String>) -> (r: Vec<String>)
    ensures
        r.deep_view() == v.deep_view(),
{
    let mut r: Vec<String> = Vec::new();
    let mut i: usize = 0;
    while i < v.len()
        invariant
            0 <= i <= v.len(),
            r@.len() == i,
            forall|k: int| 0 <= k < i ==> #[trigger] r@[k]@ == v@[k]@,
        decreases v.len() - i,
    {
        let s = v[i].clone();
        assert(s@ == v@[i as int]@);
        r.push(s);
        i = i + 1;
    }
    assert(r.deep_view() =~= v.deep_view());
    r
}

impl Clone for LandMetadata {
    /// The clone carries exactly the same annotation text.
    fn clone(&self) -> (r: Self)
        ensures
            r.deep_view() == self.deep_view(),
    {
        let environment = match &self.environment {
            Option::Some(e) => Option::Some(e.clone()),
            Option::None => Option::None,
        };
        LandMetadata {
            environment,
            special_features: clone_string_vec(&self.special_features),
            access_roads: clone_string_vec(&self.access_roads),
            utilities: clone_string_vec(&self.utilities),
        }
    }
}

impl Clone for LandInfo {
    /// The clone describes the same parcel, field for field.
    fn clone(&self) -> (r: Self)
        ensures
            r.deep_view() == self.deep_view(),
    {
        let metadata = match &self.metadata {
            Option::Some(m) => Option::Some(m.clone()),
            Option::None => Option::None,
        };
        LandInfo {
            id: self.id,
            owner: self.owner,
            coordinates: self.coordinates,
            dimensions: self.dimensions,
            land_type: self.land_type,
            description: self.description.clone(),
            metadata,
            created_at: self.created_at,
            last_updated: self.last_updated,
        }
    }
}

impl Clone for MarketplaceListing {
    /// The clone is the same offer over the same snapshot.
    fn clone(&self) -> (r: Self)
        ensures
            r.deep_view() == self.deep_view(),
    {
        MarketplaceListing {
            land_id: self.land_id,
            seller: self.seller,
            price: self.price,
            listed_at: self.listed_at,
            land_info: self.land_info.clone(),
        }
    }
}

} // verus!
