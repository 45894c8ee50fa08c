use storyforge::{ContentId, IdError};

#[test]
fn valid_ids_are_accepted() {
    for value in ["story.intro", "npc.shopkeeper", "item.health_potion", "npc.blacksmith.shop", "a-1.b_2"] {
        let id = ContentId::new(value).unwrap();
        assert_eq!(id.as_str(), value);
    }
}

#[test]
fn invalid_ids_are_rejected() {
    for value in ["", "potion", ".potion", "item.", "item..potion", "Item.potion", "item potion.x", "item.pötion", "."] {
        assert_eq!(ContentId::new(value), Err(IdError::Invalid(value.to_owned())));
    }
}

#[test]
fn parsing_uses_the_same_rules() {
    let id: ContentId = "item.sword".parse().unwrap();
    assert_eq!(id.as_str(), "item.sword");
    assert!("sword".parse::<ContentId>().is_err());
}

#[test]
fn invalid_id_message_names_the_value() {
    let error = ContentId::new("Bad").unwrap_err();
    assert_eq!(error.message(), "content ID `Bad` must be lowercase, namespaced, and ASCII");
}

#[test]
fn equal_ids_compare_equal() {
    let a = ContentId::new("item.sword").unwrap();
    let b = ContentId::new("item.sword").unwrap();
    let c = ContentId::new("item.shield").unwrap();
    assert!(a == b);
    assert!(a != c);
    assert_eq!(a.clone().as_str(), "item.sword");
}

#[test]
fn ids_order_by_their_text() {
    let a = ContentId::new("a.b").unwrap();
    let b = ContentId::new("a.c").unwrap();
    let c = ContentId::new("b.a").unwrap();
    assert!(a < b && b < c);
    let mut ids = vec![c.clone(), a.clone(), b.clone()];
    ids.sort();
    assert_eq!(ids, vec![a, b, c]);
}
