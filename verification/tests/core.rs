use oca_core::attribute::{Attribute, AttributeType, Encoding, Entry};
use oca_core::builder::OCABox;
use oca_core::bundle::Bundle;
use oca_core::command::{Command, CommandType, Content, ObjectKind, OverlayType};
use oca_core::errors::Error;
use oca_core::interpreter::apply_command;
use oca_core::laws::apply_sequence;
use oca_core::overlay::{EntryOverlay, Overlay};
use oca_core::validator::Validator;
use oca_core::value::Value;
use oca_core::layout::Layout;

fn scalar(s: &str) -> Value {
    Value::Scalar(String::from(s))
}

fn pairs(ps: &[(&str, &str)]) -> Vec<(String, Value)> {
    ps.iter().map(|(k, v)| (String::from(*k), scalar(v))).collect()
}

fn add_command(object_kind: ObjectKind, attributes: Option<Vec<(String, Value)>>, properties: Option<Vec<(String, Value)>>) -> Command {
    Command {
        kind: CommandType::Add,
        object_kind,
        content: Some(Content { attributes, properties }),
    }
}

fn credential_commands() -> Vec<Command> {
    vec![
        add_command(
            ObjectKind::CaptureBase,
            Some(pairs(&[("d", "Text"), ("i", "Text"), ("passed", "Boolean")])),
            None,
        ),
        add_command(
            ObjectKind::Overlay(OverlayType::Meta),
            None,
            Some(pairs(&[
                ("lang", "en"),
                ("name", "Entrance credential"),
                ("description", "Entrance credential"),
            ])),
        ),
        add_command(
            ObjectKind::Overlay(OverlayType::Label),
            Some(pairs(&[
                ("d", "Schema digest"),
                ("i", "Credential Issuee"),
                ("passed", "Passed"),
            ])),
            Some(pairs(&[("lang", "en")])),
        ),
        add_command(
            ObjectKind::Overlay(OverlayType::Information),
            Some(pairs(&[
                ("d", "Schema digest"),
                ("i", "Credential Issuee"),
                ("passed", "Enables or disables passing"),
            ])),
            Some(pairs(&[("lang", "en")])),
        ),
        add_command(
            ObjectKind::Overlay(OverlayType::CharacterEncoding),
            Some(pairs(&[("d", "utf-8"), ("i", "utf-8"), ("passed", "utf-8")])),
            None,
        ),
        add_command(
            ObjectKind::Overlay(OverlayType::Conformance),
            Some(pairs(&[("d", "M"), ("i", "M"), ("passed", "M")])),
            None,
        ),
    ]
}

fn build(commands: Vec<Command>) -> Bundle {
    apply_sequence(&commands).expect("commands apply").generate_bundle()
}

#[test]
fn test_add_step() {
    let mut base: Option<OCABox> = None;
    for command in credential_commands() {
        let oca = apply_command(base.as_ref(), &command).expect("command applies");
        let bundle = oca.generate_bundle();
        assert_eq!(bundle.capture_base.digest.len(), 64);
        base = Some(oca);
    }
    let bundle = base.unwrap().generate_bundle();
    assert_eq!(bundle.capture_base.attributes.len(), 3);
}

#[test]
fn capture_base_digest_deterministic() {
    let one = build(credential_commands());
    let two = build(credential_commands());
    assert_eq!(one.capture_base.digest, two.capture_base.digest);
}

#[test]
fn attribute_type_changes_digest() {
    let one = build(vec![add_command(
        ObjectKind::CaptureBase,
        Some(pairs(&[("d", "Text"), ("passed", "Boolean")])),
        None,
    )]);
    let two = build(vec![add_command(
        ObjectKind::CaptureBase,
        Some(pairs(&[("d", "Text"), ("passed", "Text")])),
        None,
    )]);
    assert_ne!(one.capture_base.digest, two.capture_base.digest);
}

fn overlay_digests(bundle: &Bundle) -> (String, String) {
    let mut meta = String::new();
    let mut label = String::new();
    for ov in &bundle.overlays {
        match ov {
            Overlay::Meta(v) => meta = v.digest.clone(),
            Overlay::Label(v) => label = v.digest.clone(),
            _ => {}
        }
    }
    (meta, label)
}

#[test]
fn overlay_change_leaves_siblings() {
    let base_cmds = |label_text: &str| {
        vec![
            add_command(
                ObjectKind::CaptureBase,
                Some(pairs(&[("d", "Text")])),
                None,
            ),
            add_command(
                ObjectKind::Overlay(OverlayType::Meta),
                None,
                Some(pairs(&[("lang", "en"), ("name", "A schema")])),
            ),
            add_command(
                ObjectKind::Overlay(OverlayType::Label),
                Some(pairs(&[("d", label_text)])),
                Some(pairs(&[("lang", "en")])),
            ),
        ]
    };
    let one = build(base_cmds("Digest"));
    let two = build(base_cmds("Another label"));
    // The capture base digest does not move with overlay content.
    assert_eq!(one.capture_base.digest, two.capture_base.digest);
    let (meta_one, label_one) = overlay_digests(&one);
    let (meta_two, label_two) = overlay_digests(&two);
    // The sibling meta overlay keeps its digest; the changed label overlay
    // gets a new one.
    assert_eq!(meta_one, meta_two);
    assert_ne!(label_one, label_two);
}

#[test]
fn duplicate_attribute_rejected() {
    let mut oca = OCABox::new();
    oca.add_attribute(Attribute::new(String::from("d"), AttributeType::Text))
        .expect("fresh attribute");
    let before = oca.generate_bundle().to_canonical_text();
    let result = oca.add_attribute(Attribute::new(String::from("d"), AttributeType::Boolean));
    assert_eq!(result, Err(Error::DuplicateAttribute));
    let after = oca.generate_bundle().to_canonical_text();
    assert_eq!(before, after);
}

#[test]
fn forward_reference_rejected() {
    let base = apply_command(
        None,
        &add_command(ObjectKind::CaptureBase, Some(pairs(&[("d", "Text")])), None),
    )
    .expect("capture base");
    let before = base.generate_bundle().to_canonical_text();
    for overlay in [
        OverlayType::Label,
        OverlayType::Information,
        OverlayType::CharacterEncoding,
        OverlayType::Conformance,
    ] {
        let properties = match overlay {
            OverlayType::Label | OverlayType::Information => Some(pairs(&[("lang", "en")])),
            _ => None,
        };
        let value = match overlay {
            OverlayType::CharacterEncoding => "utf-8",
            OverlayType::Conformance => "M",
            _ => "Some text",
        };
        let command = add_command(
            ObjectKind::Overlay(overlay),
            Some(pairs(&[("missing", value)])),
            properties,
        );
        let result = apply_command(Some(&base), &command);
        assert!(matches!(result, Err(Error::AttributeNotFound)));
    }
    // The given builder is untouched.
    let after = base.generate_bundle().to_canonical_text();
    assert_eq!(before, after);
}

#[test]
fn serialization_round_trip_stable() {
    let bundle = build(credential_commands());
    let text_one = bundle.to_canonical_text();
    let text_two = bundle.to_canonical_text();
    assert_eq!(text_one, text_two);
    let again = build(credential_commands());
    assert_eq!(text_one, again.to_canonical_text());
}

#[test]
fn entry_overlay_keys_sorted_labels_in_insertion_order() {
    let mut oca = OCABox::new();
    let mut zebra = Attribute::new(String::from("zebra"), AttributeType::Text);
    let mut alpha = Attribute::new(String::from("alpha"), AttributeType::Text);
    zebra.set_label(&String::from("en"), &String::from("Zebra"));
    alpha.set_label(&String::from("en"), &String::from("Alpha"));
    zebra.set_entries(vec![Entry::new(
        String::from("z1"),
        vec![(String::from("en"), String::from("First"))],
    )]);
    alpha.set_entries(vec![Entry::new(
        String::from("a1"),
        vec![(String::from("en"), String::from("Second"))],
    )]);
    oca.add_attribute(zebra).expect("zebra");
    oca.add_attribute(alpha).expect("alpha");
    let bundle = oca.generate_bundle();
    let mut saw_label = false;
    let mut saw_entry = false;
    for ov in &bundle.overlays {
        match ov {
            Overlay::Label(v) => {
                saw_label = true;
                // Insertion order: zebra was added first.
                assert_eq!(v.attribute_labels[0].0, "zebra");
                assert_eq!(v.attribute_labels[1].0, "alpha");
            }
            Overlay::Entry(v) => {
                saw_entry = true;
                // Lexicographic key order: alpha sorts first.
                assert_eq!(v.attr_entries[0].0, "alpha");
                assert_eq!(v.attr_entries[1].0, "zebra");
            }
            _ => {}
        }
    }
    assert!(saw_label && saw_entry);
}

#[test]
fn validator_reports_missing_language() {
    let commands = vec![
        add_command(ObjectKind::CaptureBase, Some(pairs(&[("d", "Text")])), None),
        add_command(
            ObjectKind::Overlay(OverlayType::Label),
            Some(pairs(&[("d", "Digest")])),
            Some(pairs(&[("lang", "en")])),
        ),
    ];
    let bundle = build(commands);
    let validator = Validator::new()
        .enforce_translations(vec![String::from("en"), String::from("fr")]);
    let result = validator.validate(&bundle);
    let errors = result.expect_err("fr label overlay is missing");
    assert_eq!(errors.len(), 1);
    assert_eq!(errors[0].message().as_str(), "missing fr label overlay");
}

#[test]
fn validator_accepts_complete_bundle() {
    let commands = vec![
        add_command(ObjectKind::CaptureBase, Some(pairs(&[("d", "Text")])), None),
        add_command(
            ObjectKind::Overlay(OverlayType::Label),
            Some(pairs(&[("d", "Digest")])),
            Some(pairs(&[("lang", "en")])),
        ),
        add_command(
            ObjectKind::Overlay(OverlayType::Label),
            Some(pairs(&[("d", "Sommaire")])),
            Some(pairs(&[("lang", "fr")])),
        ),
    ];
    let bundle = build(commands);
    let validator = Validator::new()
        .enforce_translations(vec![String::from("en"), String::from("fr")]);
    assert!(validator.validate(&bundle).is_ok());
}

#[test]
fn example_scenario() {
    let commands = vec![
        add_command(
            ObjectKind::CaptureBase,
            Some(pairs(&[("d", "Text"), ("i", "Text"), ("passed", "Boolean")])),
            None,
        ),
        add_command(
            ObjectKind::Overlay(OverlayType::Meta),
            None,
            Some(pairs(&[("lang", "en"), ("name", "Entrance credential")])),
        ),
        add_command(
            ObjectKind::Overlay(OverlayType::Label),
            Some(pairs(&[
                ("d", "Schema digest"),
                ("i", "Credential Issuee"),
                ("passed", "Passed"),
            ])),
            Some(pairs(&[("lang", "en")])),
        ),
    ];
    let bundle = build(commands);
    assert_eq!(bundle.capture_base.attributes.len(), 3);
    let mut metas = 0;
    let mut labels = 0;
    for ov in &bundle.overlays {
        match ov {
            Overlay::Meta(v) => {
                metas += 1;
                assert_eq!(v.language, "en");
                assert!(v.properties.iter().any(|(k, val)| k == "name" && val == "Entrance credential"));
            }
            Overlay::Label(v) => {
                labels += 1;
                assert_eq!(v.language, "en");
                assert_eq!(v.attribute_labels.len(), 3);
                assert_eq!(v.capture_base, bundle.capture_base.digest);
            }
            _ => {}
        }
    }
    assert_eq!(metas, 1);
    assert_eq!(labels, 1);
}

#[test]
fn replay_is_byte_identical() {
    let one = build(credential_commands()).to_canonical_text();
    let two = build(credential_commands()).to_canonical_text();
    assert_eq!(one, two);
}

#[test]
fn unknown_attribute_type_rejected() {
    let result = apply_command(
        None,
        &add_command(ObjectKind::CaptureBase, Some(pairs(&[("d", "Banana")])), None),
    );
    assert!(matches!(result, Err(Error::UnknownAttributeType)));
}

#[test]
fn invalid_encoding_rejected() {
    let base = apply_command(
        None,
        &add_command(ObjectKind::CaptureBase, Some(pairs(&[("d", "Text")])), None),
    )
    .expect("capture base");
    let result = apply_command(
        Some(&base),
        &add_command(
            ObjectKind::Overlay(OverlayType::CharacterEncoding),
            Some(pairs(&[("d", "utf-99")])),
            None,
        ),
    );
    assert!(matches!(result, Err(Error::InvalidEncoding)));
}

#[test]
fn invalid_conformance_rejected() {
    let base = apply_command(
        None,
        &add_command(ObjectKind::CaptureBase, Some(pairs(&[("d", "Text")])), None),
    )
    .expect("capture base");
    let result = apply_command(
        Some(&base),
        &add_command(
            ObjectKind::Overlay(OverlayType::Conformance),
            Some(pairs(&[("d", "X")])),
            None,
        ),
    );
    assert!(matches!(result, Err(Error::InvalidConformance)));
}

#[test]
fn missing_language_tag_rejected() {
    // No properties at all.
    let no_props = apply_command(
        None,
        &add_command(ObjectKind::Overlay(OverlayType::Meta), None, None),
    );
    assert!(matches!(no_props, Err(Error::MissingLanguageTag)));
    // A language tag that is not a two-letter code.
    let bad_code = apply_command(
        None,
        &add_command(
            ObjectKind::Overlay(OverlayType::Meta),
            None,
            Some(pairs(&[("lang", "english"), ("name", "A schema")])),
        ),
    );
    assert!(matches!(bad_code, Err(Error::MissingLanguageTag)));
}

#[test]
fn duplicate_form_layout_rejected() {
    let mut oca = OCABox::new();
    let layout = Layout { config: None, elements: Vec::new() };
    oca.add_form_layout(layout).expect("first layout");
    let second = Layout { config: None, elements: Vec::new() };
    assert_eq!(oca.add_form_layout(second), Err(Error::DuplicateOverlay));
}

#[test]
fn canonical_text_exact() {
    let mut oca = OCABox::new();
    oca.add_attribute(Attribute::new(String::from("d"), AttributeType::Text))
        .expect("attribute");
    let bundle = oca.generate_bundle();
    let expected = format!(
        "{{\"capture_base\":{{\"attributes\":{{\"d\":\"Text\"}},\"classification\":null,\"digest\":\"{}\",\"type\":\"spec/capture_base/1.0\"}},\"overlays\":[]}}",
        bundle.capture_base.digest
    );
    assert_eq!(bundle.to_canonical_text(), expected);
}

#[test]
fn quotes_in_names_are_escaped() {
    let mut oca = OCABox::new();
    oca.add_attribute(Attribute::new(String::from("a\"b"), AttributeType::Text))
        .expect("attribute");
    let text = oca.generate_bundle().to_canonical_text();
    assert!(text.contains("\"a\\\"b\":\"Text\""));
}

#[test]
fn digest_is_hex_and_input_sensitive() {
    let mut one = OCABox::new();
    one.add_attribute(Attribute::new(String::from("d"), AttributeType::Text))
        .expect("attribute");
    let d1 = one.generate_bundle().capture_base.digest;
    assert_eq!(d1.len(), 64);
    assert!(d1.chars().all(|c| c.is_ascii_hexdigit() && !c.is_ascii_uppercase()));
    let mut two = OCABox::new();
    two.add_attribute(Attribute::new(String::from("e"), AttributeType::Text))
        .expect("attribute");
    let d2 = two.generate_bundle().capture_base.digest;
    assert_ne!(d1, d2);
    // The digest is not the canonical input handed back.
    assert!(!d1.contains("capture_base"));
}

#[test]
fn classification_is_kept() {
    let commands = vec![add_command(
        ObjectKind::CaptureBase,
        Some(pairs(&[("d", "Text")])),
        Some(pairs(&[("classification", "GICS:35102020")])),
    )];
    let oca = apply_sequence(&commands).expect("applies");
    let bundle = oca.generate_bundle();
    assert_eq!(bundle.capture_base.classification, Some(String::from("GICS:35102020")));
}

#[test]
fn entry_overlay_new_and_add() {
    let mut overlay = EntryOverlay::new(String::from("en"));
    assert_eq!(overlay.overlay_type().as_str(), "spec/overlays/entry/1.0");
    assert_eq!(overlay.language(), Some(&String::from("en")));
    let mut attr = Attribute::new(String::from("grade"), AttributeType::Text);
    attr.set_entries(vec![
        Entry::new(String::from("a"), vec![(String::from("en"), String::from("Top"))]),
        Entry::new(String::from("b"), vec![(String::from("fr"), String::from("Bas"))]),
    ]);
    overlay.add(&attr);
    let names = overlay.attributes();
    assert_eq!(names.len(), 1);
    assert_eq!(names[0].as_str(), "grade");
    // Only the entry translated into this overlay's language is carried.
    assert_eq!(overlay.attr_entries[0].1, vec![(String::from("a"), String::from("Top"))]);
    // An attribute without entries in this language is not added.
    let plain = Attribute::new(String::from("other"), AttributeType::Text);
    overlay.add(&plain);
    assert_eq!(overlay.attributes().len(), 1);
}

#[test]
fn encoding_and_format_and_unit_kept() {
    let mut attr = Attribute::new(String::from("temp"), AttributeType::Numeric);
    attr.set_encoding(Encoding::Utf8);
    attr.set_format(String::from("0.0"));
    attr.set_unit(String::from("C"));
    attr.set_pii();
    assert_eq!(attr.encoding, Some(Encoding::Utf8));
    assert_eq!(attr.format, Some(String::from("0.0")));
    assert_eq!(attr.unit, Some(String::from("C")));
    assert!(attr.is_pii);
}

#[test]
fn rerunning_same_command_sequence_from_empty_twice() {
    let mut first: Option<OCABox> = None;
    let mut second: Option<OCABox> = None;
    for command in credential_commands() {
        first = Some(apply_command(first.as_ref(), &command).expect("applies"));
    }
    for command in credential_commands() {
        second = Some(apply_command(second.as_ref(), &command).expect("applies"));
    }
    let one = first.unwrap().generate_bundle().to_canonical_text();
    let two = second.unwrap().generate_bundle().to_canonical_text();
    assert_eq!(one, two);
}
