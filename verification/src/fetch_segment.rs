//! Decision logic for resolving a collection and its segments before any
//! block tied to them is read or written: the resolved collection must
//! carry exactly the expected version, and each logical segment role maps
//! to one storage kind. The catalog I/O itself happens outside this core,
//! which only decides over the values handed back.

use vstd::prelude::*;

verus! {

/// Error codes surfaced by catalog lookups.
#[derive(Clone, Copy, Debug, PartialEq, Eq, Structural)]
pub enum ErrorCodes {
    NotFound,
    VersionMismatch,
    Internal,
}

/// A failed collection listing, as the catalog reports it.
#[derive(Clone, Copy, Debug, PartialEq, Eq, Structural)]
pub struct GetCollectionsError {
    pub code: ErrorCodes,
}

impl GetCollectionsError {
    pub fn code(&self) -> (c: ErrorCodes)
        ensures
            c == self.code,
    {
        self.code
    }
}

/// A failed segment listing, as the catalog reports it.
#[derive(Clone, Copy, Debug, PartialEq, Eq, Structural)]
pub struct GetSegmentsError {
    pub code: ErrorCodes,
}

impl GetSegmentsError {
    pub fn code(&self) -> (c: ErrorCodes)
        ensures
            c == self.code,
    {
        self.code
    }
}

/// What the block layer reads of a collection: its id and its version.
#[derive(Clone, Copy, Debug, PartialEq, Eq, Structural)]
pub struct Collection {
    pub collection_id: u128,
    pub version: i32,
}

/// Logical role of a segment.
#[derive(Clone, Copy, Debug, PartialEq, Eq, Structural)]
pub enum SegmentScope {
    Vector,
    Metadata,
    Record,
    Sqlite,
}

/// Storage kind backing a segment.
#[derive(Clone, Copy, Debug, PartialEq, Eq, Structural)]
pub enum SegmentType {
    HnswDistributed,
    BlockfileMetadata,
    BlockfileRecord,
}

/// What the block layer reads of a segment.
#[derive(Clone, Copy, Debug, PartialEq, Eq, Structural)]
pub struct Segment {
    pub id: u128,
    pub segment_type: SegmentType,
    pub scope: SegmentScope,
    pub collection: u128,
}

/// Why fetching collection and segment information failed.
#[derive(Clone, Copy, Debug, PartialEq, Eq, Structural)]
pub enum FetchSegmentError {
    GetCollection(GetCollectionsError),
    GetSegment(GetSegmentsError),
    NoCollection,
    NoSegment,
    VersionMismatch,
}

impl FetchSegmentError {
    /// The error code surfaced for each failure.
    pub open spec fn code_spec(&self) -> ErrorCodes {
        match self {
            FetchSegmentError::GetCollection(e) => e.code,
            FetchSegmentError::GetSegment(e) => e.code,
            FetchSegmentError::NoCollection => ErrorCodes::NotFound,
            FetchSegmentError::NoSegment => ErrorCodes::NotFound,
            FetchSegmentError::VersionMismatch => ErrorCodes::VersionMismatch,
        }
    }

    pub fn code(&self) -> (c: ErrorCodes)
        ensures
            c == self.code_spec(),
    {
        match self {
            FetchSegmentError::GetCollection(e) => e.code(),
            FetchSegmentError::GetSegment(e) => e.code(),
            FetchSegmentError::NoCollection => ErrorCodes::NotFound,
            FetchSegmentError::NoSegment => ErrorCodes::NotFound,
            FetchSegmentError::VersionMismatch => ErrorCodes::VersionMismatch,
        }
    }
}

/// Checks a collection listing: the last collection listed must exist and
/// carry exactly the expected version. A version mismatch is a hard failure
/// owed to the caller before it touches any block tied to the collection.
pub fn select_collection(found: Vec<Collection>, expected_version: u32) -> (r: Result<
    Collection,
    FetchSegmentError,
>)
    ensures
        match r {
            Result::Ok(c) => found@.len() > 0 && c == found@.last() && c.version as int
                == expected_version as int,
            Result::Err(e) => (e == FetchSegmentError::NoCollection && found@.len() == 0) || (e
                == FetchSegmentError::VersionMismatch && found@.len() > 0
                && found@.last().version as int != expected_version as int),
        },
{
    let mut rest = found;
    match rest.pop() {
        Option::Some(c) => {
            if c.version >= 0 && expected_version <= 0x7fff_ffff && c.version as u32
                == expected_version {
                Result::Ok(c)
            } else {
                Result::Err(FetchSegmentError::VersionMismatch)
            }
        },
        Option::None => Result::Err(FetchSegmentError::NoCollection),
    }
}

/// Picks the single segment a scope should have resolved to: the last one
/// listed; an empty listing is a hard failure.
pub fn select_segment(found: Vec<Segment>) -> (r: Result<Segment, FetchSegmentError>)
    ensures
        match r {
            Result::Ok(s) => found@.len() > 0 && s == found@.last(),
            Result::Err(e) => e == FetchSegmentError::NoSegment && found@.len() == 0,
        },
{
    let mut rest = found;
    match rest.pop() {
        Option::Some(s) => Result::Ok(s),
        Option::None => Result::Err(FetchSegmentError::NoSegment),
    }
}

/// The storage kind used for each logical segment role. A sqlite-scoped
/// segment is outside this layer and must not be requested here.
pub fn segment_type_for_scope(scope: SegmentScope) -> (t: SegmentType)
    requires
        scope != SegmentScope::Sqlite,
    ensures
        scope == SegmentScope::Vector ==> t == SegmentType::HnswDistributed,
        scope == SegmentScope::Metadata ==> t == SegmentType::BlockfileMetadata,
        scope == SegmentScope::Record ==> t == SegmentType::BlockfileRecord,
{
    match scope {
        SegmentScope::Vector => SegmentType::HnswDistributed,
        SegmentScope::Metadata => SegmentType::BlockfileMetadata,
        SegmentScope::Record => SegmentType::BlockfileRecord,
        SegmentScope::Sqlite => vstd::pervasive::unreached(),
    }
}

/// The caller-supplied segment ids, one per scope the operator expects.
#[derive(Clone, Copy, Debug, PartialEq, Eq, Structural)]
pub struct SegmentIds {
    pub metadata: Option<u128>,
    pub record: Option<u128>,
    pub vector: Option<u128>,
}

/// The expected segment id for a scope, if the caller supplied one.
pub fn segment_id_for_scope(ids: &SegmentIds, scope: SegmentScope) -> (r: Option<u128>)
    requires
        scope != SegmentScope::Sqlite,
    ensures
        scope == SegmentScope::Vector ==> r == ids.vector,
        scope == SegmentScope::Metadata ==> r == ids.metadata,
        scope == SegmentScope::Record ==> r == ids.record,
{
    match scope {
        SegmentScope::Vector => ids.vector,
        SegmentScope::Metadata => ids.metadata,
        SegmentScope::Record => ids.record,
        SegmentScope::Sqlite => vstd::pervasive::unreached(),
    }
}

} // verus!
