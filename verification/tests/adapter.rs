use jw_guard::adapter::yaml::{check_document_count, ForbiddenFeatureReceiver, StreamRefusal, YamlEvent};

fn scalar(value: &str) -> YamlEvent {
    YamlEvent::Scalar { value: value.to_string(), anchor_id: 0, tagged: false }
}

fn scan(events: Vec<YamlEvent>) -> Result<(), &'static str> {
    let mut receiver = ForbiddenFeatureReceiver::default();
    for event in events {
        receiver.on_event(event);
    }
    receiver.finish()
}

#[test]
fn plain_mapping_passes_the_feature_scan() {
    let events = vec![
        YamlEvent::Other,
        YamlEvent::MappingStart { anchor_id: 0, tagged: false },
        scalar("name"),
        scalar("web"),
        scalar("items"),
        YamlEvent::SequenceStart { anchor_id: 0, tagged: false },
        scalar("a"),
        YamlEvent::SequenceEnd,
        YamlEvent::MappingEnd,
        YamlEvent::Other,
    ];
    assert_eq!(scan(events), Ok(()));
}

#[test]
fn aliases_anchors_and_tags_are_forbidden() {
    assert_eq!(scan(vec![YamlEvent::Alias]), Err("aliases"));
    assert_eq!(
        scan(vec![YamlEvent::Scalar { value: "x".to_string(), anchor_id: 1, tagged: false }]),
        Err("anchors")
    );
    assert_eq!(
        scan(vec![YamlEvent::Scalar { value: "x".to_string(), anchor_id: 0, tagged: true }]),
        Err("tags")
    );
    assert_eq!(
        scan(vec![YamlEvent::MappingStart { anchor_id: 2, tagged: false }]),
        Err("anchors")
    );
    assert_eq!(
        scan(vec![YamlEvent::SequenceStart { anchor_id: 2, tagged: true }]),
        Err("tags")
    );
}

#[test]
fn merge_key_is_forbidden_only_in_key_position() {
    let as_key = vec![
        YamlEvent::MappingStart { anchor_id: 0, tagged: false },
        scalar("<<"),
        scalar("base"),
    ];
    assert_eq!(scan(as_key), Err("merge keys"));

    let as_value = vec![
        YamlEvent::MappingStart { anchor_id: 0, tagged: false },
        scalar("key"),
        scalar("<<"),
        YamlEvent::MappingEnd,
    ];
    assert_eq!(scan(as_value), Ok(()));
}

#[test]
fn first_forbidden_feature_is_kept() {
    let events = vec![
        YamlEvent::Alias,
        YamlEvent::Scalar { value: "x".to_string(), anchor_id: 0, tagged: true },
        YamlEvent::MappingEnd,
    ];
    assert_eq!(scan(events), Err("aliases"));
}

#[test]
fn a_declaration_is_exactly_one_document() {
    assert_eq!(check_document_count(false, false), Err(StreamRefusal::EmptyInput));
    assert_eq!(check_document_count(true, true), Err(StreamRefusal::MultiDocument));
    assert_eq!(check_document_count(true, false), Ok(()));
}
