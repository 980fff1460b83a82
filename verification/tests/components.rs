use dudo::{Bid, ComponentKind, ComponentValue, Dice, Entity, Gamertag, Hand, WorldStorageError};

#[test]
fn dice_can_be_initialized() {
    let d = Dice::new();
    assert_eq!(d.face, None)
}

#[test]
fn hand_can_be_initialized() {
    let h = Hand::new();
    assert_eq!(h.dice, vec![Dice::new(); 5])
}

#[test]
fn gamertag_keeps_its_name() {
    let tag = Gamertag::new(String::from("alice"));
    assert_eq!(tag.name, "alice");
}

#[test]
fn bid_new_fills_all_fields() {
    let player = Entity::new(7);
    let bid = Bid::new(player, 3, 4);
    assert_eq!(bid.player, player);
    assert_eq!(bid.quantity, 3);
    assert_eq!(bid.face, 4);
}

#[test]
fn component_value_kind_follows_variant() {
    assert_eq!(ComponentValue::Hand(Hand::new()).kind(), ComponentKind::Hand);
    assert_eq!(
        ComponentValue::Gamertag(Gamertag::new(String::from("bob"))).kind(),
        ComponentKind::Gamertag
    );
}

#[test]
fn downcast_of_wrong_variant_is_type_mismatch() {
    let value = ComponentValue::Bid(Bid::new(Entity::new(0), 1, 2));
    match value.as_hand() {
        Err(WorldStorageError::ComponentTypeMismatch { expected }) => {
            assert_eq!(expected, ComponentKind::Hand);
        }
        _ => panic!("expected a type mismatch"),
    }
    assert!(value.as_bid().is_ok());
}

#[test]
fn fresh_hand_renders_as_unrolled() {
    let h = Hand::new();
    assert_eq!(h.render(), "\u{1F3B2} ? ? ? ? ? ");
}

#[test]
fn rolled_faces_render_as_die_glyphs() {
    let h = Hand {
        dice: vec![
            Dice { face: Some(1) },
            Dice { face: Some(3) },
            Dice { face: Some(6) },
        ],
    };
    assert_eq!(h.render(), "\u{1F3B2} \u{2680} \u{2682} \u{2685} ");
}
