use jw_guard::adapter::toml::{sentinel_message, sentinel_verdict, SentinelMarker, SentinelVerdict};

#[test]
fn bridge_maps_valid_none_sentinel_to_null() {
    assert_eq!(sentinel_verdict(1, SentinelMarker::Bool(true)), SentinelVerdict::Null);
}

#[test]
fn bridge_rejects_none_sentinel_with_payload_keys() {
    assert_eq!(
        sentinel_verdict(2, SentinelMarker::Bool(true)),
        SentinelVerdict::Invalid("sentinel table must not contain payload keys")
    );
}

#[test]
fn bridge_rejects_none_sentinel_when_false() {
    assert_eq!(
        sentinel_verdict(1, SentinelMarker::Bool(false)),
        SentinelVerdict::Invalid("@none must be true")
    );
}

#[test]
fn sentinel_of_another_type_is_refused_and_plain_tables_pass() {
    assert_eq!(
        sentinel_verdict(1, SentinelMarker::Other),
        SentinelVerdict::Invalid("@none must be a boolean")
    );
    assert_eq!(sentinel_verdict(3, SentinelMarker::Absent), SentinelVerdict::Table);
    assert_eq!(
        sentinel_message("$.root", "@none must be true"),
        "invalid @none sentinel at $.root: @none must be true"
    );
}
