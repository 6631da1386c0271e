use vstd::prelude::*;
use crate::address::Address;
use agave_feature_set::FeatureSet;
use solana_pubkey::Pubkey;

verus! {

#[verifier::external_type_specification]
#[verifier::external_body]
pub struct ExFeatureSet(agave_feature_set::FeatureSet);

/// The features that a feature set holds active, with their activation slots.
pub uninterp spec fn active_features(features: FeatureSet) -> Map<Seq<u8>, u64>;

/// Calls `FeatureSet::new` with an empty active map and an empty inactive
/// set: no feature is active.
#[verifier::external_body]
fn empty_feature_set() -> (r: FeatureSet)
    ensures
        active_features(r).dom().is_empty(),
{
    FeatureSet::new(Default::default(), Default::default())
}

/// Calls `FeatureSet::activate`, which records the feature as active since
/// `slot` (and drops it from the inactive set).
#[verifier::external_body]
fn activate_feature(features: &mut FeatureSet, feature_id: &Address, slot: u64)
    ensures
        active_features(*final(features)) == active_features(*old(features)).insert(feature_id@, slot),
{
    features.activate(&Pubkey::new_from_array(feature_id.0), slot)
}

/// Calls `FeatureSet::is_active`, which tests whether the feature is among
/// the set's active features.
#[verifier::external_body]
pub(crate) fn feature_is_active(feature_set: &FeatureSet, feature_id: &Address) -> (r: bool)
    ensures
        r == active_features(*feature_set).dom().contains(feature_id@),
{
    feature_set.is_active(&Pubkey::new_from_array(feature_id.0))
}

/// The feature map of a fixture: each enabled feature active since slot 0.
pub open spec fn fixture_feature_map(enabled: Seq<Address>) -> Map<Seq<u8>, u64> {
    Map::new(|k: Seq<u8>| exists|i: int| 0 <= i < enabled.len() && (#[trigger] enabled[i])@ == k, |k: Seq<u8>| 0u64)
}

/// The feature set under which a fixture replays: exactly the features the
/// fixture lists as enabled, each active since slot 0, none inactive.
pub fn feature_set_from_fixture(enabled: &Vec<Address>) -> (r: FeatureSet)
    ensures
        active_features(r) == fixture_feature_map(enabled@),
        forall|k: Seq<u8>| #[trigger] active_features(r).dom().contains(k)
            <==> exists|i: int| 0 <= i < enabled@.len() && enabled@[i]@ == k,
        forall|k: Seq<u8>| #[trigger] active_features(r).dom().contains(k) ==> active_features(r)[k] == 0,
{
    let mut features = empty_feature_set();
    let mut i: usize = 0;
    while i < enabled.len()
        invariant
            i <= enabled@.len(),
            active_features(features) == fixture_feature_map(enabled@.subrange(0, i as int)),
        decreases enabled@.len() - i,
    {
        let ghost before = active_features(features);
        activate_feature(&mut features, &enabled[i], 0);
        proof {
            let prefix = enabled@.subrange(0, i + 1);
            assert forall|k: Seq<u8>| #[trigger] fixture_feature_map(prefix).dom().contains(k)
                == before.insert(enabled@[i as int]@, 0u64).dom().contains(k) by {
                if k == enabled@[i as int]@ {
                    assert(prefix[i as int] == enabled@[i as int]);
                } else if fixture_feature_map(prefix).dom().contains(k) {
                    let j = choose|j: int| 0 <= j < prefix.len() && (#[trigger] prefix[j])@ == k;
                    assert(enabled@.subrange(0, i as int)[j] == prefix[j]);
                } else if before.dom().contains(k) {
                    let j = choose|j: int| 0 <= j < i && (#[trigger] enabled@.subrange(0, i as int)[j])@ == k;
                    assert(prefix[j] == enabled@.subrange(0, i as int)[j]);
                }
            }
            assert(fixture_feature_map(prefix) =~= active_features(features));
        }
        i = i + 1;
    }
    assert(enabled@.subrange(0, enabled@.len() as int) =~= enabled@);
    features
}

/// Whether the feature `feature_id` is active in `features`.
pub fn is_feature_active(features: &FeatureSet, feature_id: &Address) -> (r: bool)
    ensures
        r == active_features(*features).dom().contains(feature_id@),
{
    feature_is_active(features, feature_id)
}

/// A fixture's feature set holds a feature active exactly when the fixture
/// lists it as enabled.
pub proof fn lemma_fixture_features_active(enabled: Seq<Address>, feature_id: Address)
    ensures
        fixture_feature_map(enabled).dom().contains(feature_id@)
            <==> exists|i: int| 0 <= i < enabled.len() && enabled[i]@ == feature_id@,
        fixture_feature_map(enabled).dom().contains(feature_id@) ==> fixture_feature_map(enabled)[feature_id@] == 0,
{
}

} // verus!
