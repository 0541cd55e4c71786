use tilemesh::tags::{
    find_key_value_index, has_key_any_value, has_key_value, has_not_key_value, LayerTags,
};

fn sample_layer() -> LayerTags {
    LayerTags {
        keys: vec!["class".to_string(), "type".to_string(), "height".to_string()],
        values: vec![
            "street".to_string(),
            "rock".to_string(),
            "primary".to_string(),
            String::new(),
        ],
    }
}

#[test]
fn key_value_lookup() {
    let layer = sample_layer();
    // The feature says class=street, type=rock.
    let tags: Vec<u32> = vec![0, 0, 1, 1];
    let class = "class".to_string();
    let street = "street".to_string();
    let rock = "rock".to_string();
    assert!(has_key_value(&layer, &tags, &class, &street));
    assert!(!has_key_value(&layer, &tags, &class, &rock));
    assert!(!has_key_value(&layer, &tags, &"absent".to_string(), &street));
    assert!(!has_key_value(&layer, &vec![], &class, &street));
}

#[test]
fn negated_key_value_lookup() {
    let layer = sample_layer();
    let tags: Vec<u32> = vec![1, 1];
    let typ = "type".to_string();
    assert!(!has_not_key_value(&layer, &tags, &typ, &"rock".to_string()));
    assert!(has_not_key_value(&layer, &tags, &typ, &"grass".to_string()));
    assert!(has_not_key_value(&layer, &vec![], &typ, &"rock".to_string()));
}

#[test]
fn any_value_lookup() {
    let layer = sample_layer();
    let tags: Vec<u32> = vec![0, 2];
    let class = "class".to_string();
    let wanted = vec!["motorway".to_string(), "primary".to_string()];
    assert!(has_key_any_value(&layer, &tags, &class, &wanted));
    let unwanted = vec!["path".to_string(), "trunk".to_string()];
    assert!(!has_key_any_value(&layer, &tags, &class, &unwanted));
    assert!(!has_key_any_value(&layer, &tags, &class, &vec![]));
}

#[test]
fn value_index_of_first_matching_key() {
    let layer = sample_layer();
    // height appears twice; the first pair wins.
    let tags: Vec<u32> = vec![0, 0, 2, 3, 2, 1];
    assert_eq!(find_key_value_index(&layer, &tags, &"height".to_string()), Some(3));
    assert_eq!(find_key_value_index(&layer, &tags, &"class".to_string()), Some(0));
    assert_eq!(find_key_value_index(&layer, &tags, &"absent".to_string()), None);
}
