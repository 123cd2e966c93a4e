use server::realtime::validate::{
    validate_room_state, RoomAssetInstance, RoomProgramState, ValidationError, MAX_OBJECTS,
};
use server::scalar::Scalar;

fn v3(x: f32, y: f32, z: f32) -> Vec<Scalar> {
    vec![
        Scalar::new(x.to_bits()),
        Scalar::new(y.to_bits()),
        Scalar::new(z.to_bits()),
    ]
}

fn obj(kind: &str) -> RoomAssetInstance {
    RoomAssetInstance {
        id: "a".into(),
        kind: kind.into(),
        label: "x".into(),
        position: v3(0.0, 1.0, 2.0),
        rotation: v3(0.0, 0.0, 0.0),
        scale: v3(1.0, 1.0, 1.0),
        color: "#fff".into(),
        link_url: None,
        open_in_new_tab: None,
        model_data_url: None,
        model_file_name: None,
    }
}

fn state(objects: Vec<RoomAssetInstance>) -> RoomProgramState {
    RoomProgramState {
        version: 1,
        environment_id: "studio-grid".into(),
        objects,
        updated_at: 0,
    }
}

fn problem(o: RoomAssetInstance) -> ValidationError {
    validate_room_state(&state(vec![o])).unwrap_err()
}

#[test]
fn accepts_sane_state() {
    let mut link = obj("link");
    link.link_url = Some("https://ekza.io".into());
    let mut model = obj("model");
    model.model_data_url = Some("ipfs://bafy".into());
    assert_eq!(
        validate_room_state(&state(vec![obj("cube"), link, model])),
        Ok(())
    );
}

#[test]
fn rejects_javascript_links_and_inline_models() {
    let mut link = obj("link");
    link.link_url = Some("javascript:alert(1)".into());
    assert!(validate_room_state(&state(vec![link])).is_err());

    let mut model = obj("model");
    model.model_data_url = Some("data:model/gltf-binary;base64,AAAA".into());
    assert!(validate_room_state(&state(vec![model])).is_err());
}

#[test]
fn rejects_garbage_transforms_kinds_and_size() {
    let mut bad = obj("cube");
    bad.position = v3(f32::NAN, 0.0, 0.0);
    assert!(validate_room_state(&state(vec![bad])).is_err());
    assert!(validate_room_state(&state(vec![obj("exploit")])).is_err());
    let many = (0..=MAX_OBJECTS).map(|_| obj("cube")).collect();
    assert!(matches!(
        validate_room_state(&state(many)),
        Err(ValidationError::TooManyObjects(_))
    ));
    let mut s = state(vec![]);
    s.version = 2;
    assert!(validate_room_state(&s).is_err());
}

#[test]
fn every_kind_is_known() {
    for kind in ["sphere", "cube", "torus", "cone", "link", "model"] {
        assert_eq!(validate_room_state(&state(vec![obj(kind)])), Ok(()));
    }
    assert_eq!(
        problem(obj("Cube")),
        ValidationError::Object(0, "unknown kind")
    );
}

#[test]
fn each_problem_is_named() {
    let mut s = state(vec![]);
    s.version = 0;
    assert_eq!(validate_room_state(&s), Err(ValidationError::Version(0)));

    let mut s = state(vec![]);
    s.environment_id = "e".repeat(65);
    assert_eq!(validate_room_state(&s), Err(ValidationError::Environment));
    s.environment_id = "e".repeat(64);
    assert_eq!(validate_room_state(&s), Ok(()));

    let mut o = obj("cube");
    o.id = String::new();
    assert_eq!(problem(o), ValidationError::Object(0, "bad id"));
    let mut o = obj("cube");
    o.id = "i".repeat(65);
    assert_eq!(problem(o), ValidationError::Object(0, "bad id"));

    let mut o = obj("cube");
    o.label = "l".repeat(65);
    assert_eq!(problem(o), ValidationError::Object(0, "label too long"));

    let mut o = obj("cube");
    o.color = "c".repeat(17);
    assert_eq!(problem(o), ValidationError::Object(0, "color too long"));

    let mut o = obj("cube");
    o.scale = vec![Scalar::new(0), Scalar::new(0)];
    assert_eq!(problem(o), ValidationError::Object(0, "bad transform"));

    let mut o = obj("link");
    o.link_url = Some("ftp://x".into());
    assert_eq!(
        problem(o),
        ValidationError::Object(0, "link must be http(s) and <= 512 chars")
    );

    let mut o = obj("model");
    o.model_data_url = Some("http://x".into());
    assert_eq!(
        problem(o),
        ValidationError::Object(0, "model must be https:// or ipfs:// (no inline data)")
    );

    let mut o = obj("model");
    o.model_file_name = Some("f".repeat(129));
    assert_eq!(
        problem(o),
        ValidationError::Object(0, "model file name too long")
    );
}

#[test]
fn the_first_bad_object_is_named() {
    let bad = obj("nope");
    let worse = obj("also nope");
    assert_eq!(
        validate_room_state(&state(vec![obj("cube"), bad, worse])),
        Err(ValidationError::Object(1, "unknown kind"))
    );
}

#[test]
fn coordinates_end_at_ten_thousand() {
    let mut o = obj("cube");
    o.position = v3(10_000.0, -10_000.0, -0.0);
    assert_eq!(validate_room_state(&state(vec![o])), Ok(()));
    for x in [10_000.001f32, -10_001.0, f32::INFINITY, f32::NEG_INFINITY] {
        let mut o = obj("cube");
        o.rotation = v3(0.0, x, 0.0);
        assert_eq!(problem(o), ValidationError::Object(0, "bad transform"));
    }
}

#[test]
fn empty_links_are_refused() {
    let mut o = obj("link");
    o.link_url = Some(String::new());
    assert_eq!(
        problem(o),
        ValidationError::Object(0, "link must be http(s) and <= 512 chars")
    );
    assert_eq!(validate_room_state(&state(vec![obj("link")])), Ok(()));
    let mut o = obj("model");
    o.model_data_url = Some(String::new());
    assert!(validate_room_state(&state(vec![o])).is_err());
}

#[test]
fn urls_are_capped_and_hold_no_control_characters() {
    let mut o = obj("link");
    o.link_url = Some(format!("https://{}", "a".repeat(504)));
    assert_eq!(validate_room_state(&state(vec![o])), Ok(()));
    let mut o = obj("link");
    o.link_url = Some(format!("https://{}", "a".repeat(505)));
    assert!(validate_room_state(&state(vec![o])).is_err());
    let mut o = obj("link");
    o.link_url = Some("https://a\nb".into());
    assert!(validate_room_state(&state(vec![o])).is_err());
    let mut o = obj("model");
    o.model_data_url = Some("ipfs://a\u{85}".into());
    assert!(validate_room_state(&state(vec![o])).is_err());
}

#[test]
fn problems_in_words() {
    assert_eq!(
        ValidationError::Version(2).message(),
        "unsupported state version 2"
    );
    assert_eq!(
        ValidationError::Environment.message(),
        "environmentId too long"
    );
    assert_eq!(
        ValidationError::TooManyObjects(201).message(),
        "too many objects (201 > 200)"
    );
    assert_eq!(
        ValidationError::Object(12, "bad id").message(),
        "object 12: bad id"
    );
}

#[test]
fn fresh_rooms_pass() {
    let fresh = RoomProgramState::empty(77);
    assert_eq!(fresh.version, 1);
    assert_eq!(fresh.environment_id, "cosmic-grass");
    assert_eq!(fresh.updated_at, 77);
    assert!(fresh.objects.is_empty());
    assert_eq!(validate_room_state(&fresh), Ok(()));
}

#[test]
fn duplicates_say_the_same() {
    let mut o = obj("link");
    o.link_url = Some("http://x".into());
    o.open_in_new_tab = Some(true);
    let s = state(vec![o]);
    let d = s.duplicate();
    assert_eq!(format!("{s:?}"), format!("{d:?}"));
}
