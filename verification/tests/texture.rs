use actor_game::actor::texture::TextureManager;

#[test]
fn new_registry_is_empty() {
    let textures = TextureManager::new();
    assert_eq!(textures.len(), 0);
    assert!(!textures.contains("Ship.png"));
    assert!(textures.get_texture("Ship.png").is_none());
}

#[test]
fn load_texture_registers_and_hands_out_the_handle() {
    let mut textures = TextureManager::new();
    assert_eq!(textures.load_texture("Ship.png", Some((64, 32))), Some(0));
    assert_eq!(textures.load_texture("Laser.png", Some((8, 16))), Some(1));
    assert_eq!(textures.len(), 2);
    assert!(textures.contains("Ship.png"));
    assert!(textures.contains("Laser.png"));
    assert!(!textures.contains("ship.png"));
    let ship = textures.get_texture("Ship.png").unwrap();
    assert_eq!((ship.id, ship.width, ship.height), (0, 64, 32));
    let laser = textures.get_texture("Laser.png").unwrap();
    assert_eq!((laser.id, laser.width, laser.height), (1, 8, 16));
}

#[test]
fn load_texture_keeps_what_is_loaded_already() {
    let mut textures = TextureManager::new();
    textures.load_texture("Ship.png", Some((64, 32)));
    textures.load_texture("Laser.png", Some((8, 16)));
    assert_eq!(textures.load_texture("Ship.png", Some((1, 1))), Some(0));
    assert_eq!(textures.load_texture("Ship.png", None), Some(0));
    assert_eq!(textures.load_texture("Laser.png", None), Some(1));
    assert_eq!(textures.len(), 2);
    let ship = textures.get_texture("Ship.png").unwrap();
    assert_eq!((ship.id, ship.width, ship.height), (0, 64, 32));
}

#[test]
fn load_texture_of_a_missing_asset_registers_nothing() {
    let mut textures = TextureManager::new();
    assert_eq!(textures.load_texture("Missing.png", None), None);
    assert_eq!(textures.len(), 0);
    assert!(!textures.contains("Missing.png"));
    assert!(textures.get_texture("Missing.png").is_none());
    assert_eq!(textures.load_texture("Missing.png", Some((2, 2))), Some(0));
    assert!(textures.contains("Missing.png"));
}

#[test]
fn texture_names_are_told_apart_exactly() {
    let mut textures = TextureManager::new();
    textures.load_texture("", Some((1, 1)));
    textures.load_texture("a", Some((2, 2)));
    textures.load_texture("ab", Some((3, 3)));
    assert_eq!(textures.get_texture("").unwrap().width, 1);
    assert_eq!(textures.get_texture("a").unwrap().width, 2);
    assert_eq!(textures.get_texture("ab").unwrap().width, 3);
    assert!(textures.get_texture("b").is_none());
}

#[test]
fn load_texture_hands_out_the_handle_that_get_texture_shows() {
    let mut textures = TextureManager::new();
    for (i, name) in ["a", "b", "c", "b", "a", "d"].iter().enumerate() {
        let handle = textures.load_texture(name, Some((i as u32, 1)));
        assert_eq!(handle, textures.get_texture(name).map(|t| t.id));
    }
    assert_eq!(textures.len(), 4);
    assert_eq!(textures.get_texture("d").unwrap().id, 3);
}
