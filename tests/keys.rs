use edgeware_genesis::keys::{get_account_id_from_seed, get_authority_keys_from_seed, get_from_seed, KeyScheme};

fn hex32(s: &str) -> [u8; 32] {
    let mut out = [0u8; 32];
    for i in 0..32 {
        out[i] = u8::from_str_radix(&s[2 * i..2 * i + 2], 16).unwrap();
    }
    out
}

#[test]
fn alice_account_is_stable_and_differs_from_stash() {
    let a = get_account_id_from_seed("Alice").unwrap();
    let b = get_account_id_from_seed("Alice").unwrap();
    let stash = get_account_id_from_seed("Alice//stash").unwrap();
    assert_eq!(a, b);
    assert_ne!(a, stash);
}

#[test]
fn alice_keys_are_the_well_known_ones() {
    let a = get_account_id_from_seed("Alice").unwrap();
    assert_eq!(a.bytes, hex32("d43593c715fdd31c61141abd04a99fd6822c8558854ccde39a5684e7a56da27d"));
    let ed = get_from_seed(KeyScheme::Ed25519, "Alice").unwrap();
    assert_eq!(ed, hex32("88dc3417d5058ec4b4503e0c12ea1a0a89be200fe98922423d4334014fa6b0ee"));
}

#[test]
fn authority_keys_of_a_seed() {
    let k = get_authority_keys_from_seed("Bob").unwrap();
    assert_eq!(k.controller, get_account_id_from_seed("Bob").unwrap());
    assert_eq!(k.stash, get_account_id_from_seed("Bob//stash").unwrap());
    assert_eq!(k.keys.aura.bytes, k.controller.bytes);
    assert_eq!(k.keys.grandpa.bytes, get_from_seed(KeyScheme::Ed25519, "Bob").unwrap());
    assert_eq!(k.keys.grandpa, k.keys.im_online);
    assert_ne!(k.keys.aura.bytes, k.keys.grandpa.bytes);
}

#[test]
fn different_seeds_give_different_accounts() {
    let a = get_account_id_from_seed("Alice").unwrap();
    let b = get_account_id_from_seed("Bob").unwrap();
    assert_ne!(a, b);
}
