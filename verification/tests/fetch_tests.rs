use blockstore::fetch_segment::{
    select_collection, select_segment, segment_id_for_scope, segment_type_for_scope, Collection,
    ErrorCodes, FetchSegmentError, GetCollectionsError, GetSegmentsError, Segment, SegmentIds,
    SegmentScope, SegmentType,
};

#[test]
fn missing_collection_is_not_found() {
    let r = select_collection(Vec::new(), 3);
    assert_eq!(r, Err(FetchSegmentError::NoCollection));
}

#[test]
fn version_mismatch_is_a_hard_failure() {
    let c = Collection { collection_id: 11, version: 4 };
    let r = select_collection(vec![c], 3);
    assert_eq!(r, Err(FetchSegmentError::VersionMismatch));
}

#[test]
fn matching_version_resolves_the_collection() {
    let c = Collection { collection_id: 11, version: 3 };
    let r = select_collection(vec![c], 3);
    assert_eq!(r, Ok(c));
}

#[test]
fn missing_segment_is_not_found() {
    let r = select_segment(Vec::new());
    assert_eq!(r, Err(FetchSegmentError::NoSegment));
}

#[test]
fn the_last_listed_segment_wins() {
    let s1 = Segment {
        id: 1,
        segment_type: SegmentType::BlockfileRecord,
        scope: SegmentScope::Record,
        collection: 11,
    };
    let s2 = Segment { id: 2, ..s1 };
    let r = select_segment(vec![s1, s2]);
    assert_eq!(r, Ok(s2));
}

#[test]
fn scopes_map_to_storage_kinds() {
    assert_eq!(segment_type_for_scope(SegmentScope::Vector), SegmentType::HnswDistributed);
    assert_eq!(segment_type_for_scope(SegmentScope::Metadata), SegmentType::BlockfileMetadata);
    assert_eq!(segment_type_for_scope(SegmentScope::Record), SegmentType::BlockfileRecord);
}

#[test]
fn scopes_pick_their_segment_id() {
    let ids = SegmentIds { metadata: Some(1), record: None, vector: Some(3) };
    assert_eq!(segment_id_for_scope(&ids, SegmentScope::Metadata), Some(1));
    assert_eq!(segment_id_for_scope(&ids, SegmentScope::Record), None);
    assert_eq!(segment_id_for_scope(&ids, SegmentScope::Vector), Some(3));
}

#[test]
fn error_codes_match_the_failure() {
    assert_eq!(FetchSegmentError::NoCollection.code(), ErrorCodes::NotFound);
    assert_eq!(FetchSegmentError::NoSegment.code(), ErrorCodes::NotFound);
    assert_eq!(FetchSegmentError::VersionMismatch.code(), ErrorCodes::VersionMismatch);
    let gc = GetCollectionsError { code: ErrorCodes::Internal };
    assert_eq!(FetchSegmentError::GetCollection(gc).code(), ErrorCodes::Internal);
    let gs = GetSegmentsError { code: ErrorCodes::NotFound };
    assert_eq!(FetchSegmentError::GetSegment(gs).code(), ErrorCodes::NotFound);
}

#[test]
fn negative_versions_never_match() {
    let c = Collection { collection_id: 1, version: -1 };
    let r = select_collection(vec![c], 0);
    assert_eq!(r, Err(FetchSegmentError::VersionMismatch));
}
