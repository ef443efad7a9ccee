use markdown_core::tag::{parse_component_tag, TagKind};

#[test]
fn self_closing_tag_with_attributes() {
    let t = parse_component_tag("<Counter initial=\"5\" label=\"a b\"/>").expect("recognized");
    assert_eq!(t.name, "Counter".to_string());
    assert_eq!(t.kind, TagKind::SelfClosing);
    assert_eq!(
        t.attributes,
        vec![
            ("initial".to_string(), "5".to_string()),
            ("label".to_string(), "a b".to_string())
        ]
    );
}

#[test]
fn open_and_close_tags() {
    let open = parse_component_tag("<Wrap title=\"x\">").expect("recognized");
    assert_eq!(open.name, "Wrap".to_string());
    assert_eq!(open.kind, TagKind::Open);
    assert_eq!(open.attributes, vec![("title".to_string(), "x".to_string())]);

    let close = parse_component_tag("</Wrap>").expect("recognized");
    assert_eq!(close.name, "Wrap".to_string());
    assert_eq!(close.kind, TagKind::Close);
    assert!(close.attributes.is_empty());

    let close_spaced = parse_component_tag("</Wrap  >").expect("recognized");
    assert_eq!(close_spaced.kind, TagKind::Close);
}

#[test]
fn attribute_value_may_be_empty_and_name_may_have_digits() {
    let t = parse_component_tag("<Grid2 cols=\"\"/>").expect("recognized");
    assert_eq!(t.name, "Grid2".to_string());
    assert_eq!(t.attributes, vec![("cols".to_string(), "".to_string())]);
}

#[test]
fn malformed_tags_are_not_recognized() {
    assert!(parse_component_tag("").is_none());
    assert!(parse_component_tag("<>").is_none());
    assert!(parse_component_tag("no tag").is_none());
    assert!(parse_component_tag("<1up/>").is_none());
    assert!(parse_component_tag("<Counter initial=5/>").is_none());
    assert!(parse_component_tag("<Counter initial=\"5/>").is_none());
    assert!(parse_component_tag("<Counter initial=\"5\"/> trailing").is_none());
    assert!(parse_component_tag("<Counter initial=\"5\"").is_none());
    assert!(parse_component_tag("<Counterinitial=\"5\"/>").is_none());
    assert!(parse_component_tag("<em>x</em>").is_none());
}
