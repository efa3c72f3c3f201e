use js_randomness_predictor::engine::EngineRule;
use js_randomness_predictor::node_predictor::rule_of_version;
use js_randomness_predictor::NodeJsMajorVersion;

#[test]
fn from_u8_knows_zero_and_four_to_twenty_four() {
    assert_eq!(NodeJsMajorVersion::from_u8(0), Some(NodeJsMajorVersion::V0));
    assert_eq!(NodeJsMajorVersion::from_u8(4), Some(NodeJsMajorVersion::V4));
    assert_eq!(NodeJsMajorVersion::from_u8(22), Some(NodeJsMajorVersion::V22));
    assert_eq!(NodeJsMajorVersion::from_u8(24), Some(NodeJsMajorVersion::V24));
    for unknown in [1u8, 2, 3, 25, 26, 100, 255] {
        assert_eq!(NodeJsMajorVersion::from_u8(unknown), None);
    }
}

#[test]
fn from_u8_and_as_u8_are_inverse() {
    let mut known = 0;
    for number in 0..=255u8 {
        if let Some(version) = NodeJsMajorVersion::from_u8(number) {
            assert_eq!(version.as_u8(), number);
            known += 1;
        }
    }
    assert_eq!(known, 22);
}

#[test]
fn versions_show_as_v_and_the_number() {
    assert_eq!(NodeJsMajorVersion::V0.to_string(), "v0");
    assert_eq!(NodeJsMajorVersion::V9.to_string(), "v9");
    assert_eq!(NodeJsMajorVersion::V10.to_string(), "v10");
    assert_eq!(NodeJsMajorVersion::V24.to_string(), "v24");
}

#[test]
fn the_rule_changes_with_version_24() {
    assert_eq!(rule_of_version(NodeJsMajorVersion::V24), EngineRule::V8);
    assert_eq!(rule_of_version(NodeJsMajorVersion::V23), EngineRule::LegacyNode);
    assert_eq!(rule_of_version(NodeJsMajorVersion::V0), EngineRule::LegacyNode);
}
