use bech32::ToBase32;
use bech_mock::bech::Bech;

const JUNO_ADDRESS: &str = "juno1v82su97skv6ucfqvuvswe0t5fph7pfsrtraxf0x33d8ylj5qnrysdvkc95";

fn hex_of(input: &[u8]) -> String {
    input.iter().map(|byte| format!("{:02X}", byte)).collect()
}

fn utf8_of(input: &[u8]) -> String {
    String::from_utf8_lossy(input).to_string()
}

#[test]
fn canonicalize_works() {
    let bech = Bech::default();
    let canonical = bech.canonicalize("foobar123").unwrap();
    assert_eq!("msawmsoc1vehk7cnpwgcnyvclw6y9j", utf8_of(&canonical));
    assert_eq!(
        "6D7361776D736F63317665686B37636E707767636E7976636C773679396A",
        hex_of(&canonical)
    );
}

#[test]
fn canonicalize_is_case_insensitive() {
    let bech = Bech::default();
    assert_eq!(
        bech.canonicalize("foo123").unwrap(),
        bech.canonicalize("FOO123").unwrap()
    );
}

#[test]
fn canonicalize_empty_address_works() {
    let bech = Bech::default();
    let canonical = bech.canonicalize("").unwrap();
    assert_eq!("msawmsoc1d2j362", utf8_of(&canonical));
    assert_eq!("6D7361776D736F633164326A333632", hex_of(&canonical));
}

#[test]
fn canonicalize_short_address_works() {
    let bech = Bech::default();
    let canonical = bech.canonicalize("a").unwrap();
    assert_eq!("msawmsoc1vylhjcfd", utf8_of(&canonical));
    assert_eq!("6D7361776D736F633176796C686A636664", hex_of(&canonical));
}

#[test]
fn canonicalize_long_address_works() {
    let bech = Bech::default();
    let canonical = bech.canonicalize("some-extremely-long-address-also-supported-by-this-api-some-extremely-long-address-also-supported-by-this-api-some-extremely-long-address-also-supported-by-this-api").unwrap();
    assert_eq!("msawmsoc1wdhk6efdv4u8gun9d4jkc7fdd3hkueedv9jxgun9wdej6ctvwdhj6um4wpcx7un5v4jz6cne946xs6tn94shq6fdwdhk6efdv4u8gun9d4jkc7fdd3hkueedv9jxgun9wdej6ctvwdhj6um4wpcx7un5v4jz6cne946xs6tn94shq6fdwdhk6efdv4u8gun9d4jkc7fdd3hkueedv9jxgun9wdej6ctvwdhj6um4wpcx7un5v4jz6cne946xs6tn94shq6gvu3g2s", utf8_of(&canonical));
    assert_eq!("6D7361776D736F63317764686B366566647634753867756E3964346A6B633766646433686B7565656476396A7867756E397764656A366374767764686A36756D347770637837756E3576346A7A36636E65393436787336746E39347368713666647764686B366566647634753867756E3964346A6B633766646433686B7565656476396A7867756E397764656A366374767764686A36756D347770637837756E3576346A7A36636E65393436787336746E39347368713666647764686B366566647634753867756E3964346A6B633766646433686B7565656476396A7867756E397764656A366374767764686A36756D347770637837756E3576346A7A36636E65393436787336746E39347368713667767533673273", hex_of(&canonical));
}

#[test]
fn double_canonicalize_of_short_address_has_no_effect() {
    let bech = Bech::default();
    let addr1 = "foobar123";
    let canonical1 = bech.canonicalize(addr1).unwrap();
    let addr2 = String::from_utf8_lossy(&canonical1);
    let canonical2 = bech.canonicalize(addr2.as_ref()).unwrap();
    assert_eq!(canonical1, canonical2);
}

#[test]
fn double_canonicalize_of_long_address_has_no_effect() {
    let bech = Bech::new_b32("juno");
    let addr1 = JUNO_ADDRESS;
    let canonical1 = bech.canonicalize(addr1).unwrap();
    let addr2 = String::from_utf8_lossy(&canonical1);
    let canonical2 = bech.canonicalize(addr2.as_ref()).unwrap();
    assert_eq!(canonical1, canonical2);
}

#[test]
fn double_humanize_of_short_address_has_no_effect() {
    let bech = Bech::new_b32("juno");
    let canonical1 = "foobar123".as_bytes();
    let humanized1 = bech.humanize(canonical1).unwrap();
    let canonical2 = humanized1.as_bytes();
    let humanized2 = bech.humanize(canonical2).unwrap();
    assert_eq!(humanized1, humanized2);
}

#[test]
fn double_humanize_of_long_address_has_no_effect() {
    let bech = Bech::new_b32("juno");
    let canonical1 = JUNO_ADDRESS.as_bytes();
    let humanized1 = bech.humanize(canonical1).unwrap();
    let canonical2 = humanized1.as_bytes();
    let humanized2 = bech.humanize(canonical2).unwrap();
    assert_eq!(humanized1, humanized2);
}

#[test]
fn bech_canonicalize_and_humanize_restores_original() {
    let bech = Bech::new_b32("juno");

    // simple
    let original = String::from("shorty");
    let canonical = bech.canonicalize(&original).unwrap();
    let recovered = bech.humanize(&canonical).unwrap();
    assert_eq!(recovered, original);
    let canonical = bech.canonicalize(recovered.as_ref()).unwrap();
    let recovered = bech.humanize(&canonical).unwrap();
    assert_eq!(recovered, original);

    // normalizes input
    let original = String::from("CosmWasmChef");
    let canonical = bech.canonicalize(&original).unwrap();
    let recovered = bech.humanize(&canonical).unwrap();
    assert_eq!(recovered, "cosmwasmchef");
    let canonical = bech.canonicalize(recovered.as_ref()).unwrap();
    let recovered = bech.humanize(&canonical).unwrap();
    assert_eq!(recovered, "cosmwasmchef");

    // long input (Juno contract address)
    let original = JUNO_ADDRESS.to_string();
    let canonical = bech.canonicalize(&original).unwrap();
    let recovered = bech.humanize(&canonical).unwrap();
    assert_eq!(recovered, original);
    let canonical = bech.canonicalize(recovered.as_ref()).unwrap();
    let recovered = bech.humanize(&canonical).unwrap();
    assert_eq!(recovered, original);
}

#[test]
fn canonicalize_and_humanize_can_be_tricked() {
    let bech = Bech::default();

    // create an address with reversed prefix
    let inner_addr = bech32::encode(
        "msawmsoc",
        b"foobar123".to_base32(),
        bech32::Variant::Bech32,
    )
    .unwrap();

    // wrap it again with normal prefix
    let outer_addr = bech32::encode(
        "cosmwasm",
        inner_addr.as_bytes().to_base32(),
        bech32::Variant::Bech32,
    )
    .unwrap();

    // now canonicalize and humanize again
    let result = bech
        .humanize(&bech.canonicalize(&outer_addr).unwrap())
        .unwrap();

    // The outer address parses under the public prefix, so both calls pass
    // it through whole: the nested value is never unwrapped and the round
    // trip preserves the input.  The pass-through rule wins over unwrapping.
    assert_eq!(result, outer_addr);
}

#[test]
fn canonicalize_and_humanize_can_handle_different_variants() {
    let bech = Bech::default();

    // create bech32 address with different variant
    let inner_addr = bech32::encode(
        "msawmsoc",
        b"foobar123".to_base32(),
        bech32::Variant::Bech32m,
    )
    .unwrap();

    // nest it as data inside an address with correct variant
    let outer_addr = bech32::encode(
        "cosmwasm",
        inner_addr.as_bytes().to_base32(),
        bech32::Variant::Bech32,
    )
    .unwrap();

    // now canonicalize and humanize again
    let result = bech
        .humanize(&bech.canonicalize(&outer_addr).unwrap())
        .unwrap();

    assert_eq!(result, outer_addr);
}

#[test]
fn repeated_canonicalize_is_idempotent() {
    // Plain text that is not checksummed text: canonicalize, humanize, and
    // canonicalize again; the canonical bytes must not change.
    let bech = Bech::new_b32("juno");
    let plain = "Some Plain Text!";
    let canonical1 = bech.canonicalize(plain).unwrap();
    let recovered = bech.humanize(&canonical1).unwrap();
    let canonical2 = bech.canonicalize(&recovered).unwrap();
    assert_eq!(canonical1, canonical2);
}

#[test]
fn case_normalization_humanizes_lowercase() {
    let bech = Bech::default();
    let upper = bech.canonicalize("FOO123").unwrap();
    let lower = bech.canonicalize("foo123").unwrap();
    assert_eq!(upper, lower);
    assert_eq!("foo123", bech.humanize(&upper).unwrap());
}

#[test]
fn pass_through_keeps_canonical_text_unchanged() {
    let bech = Bech::new_b32("juno");
    let canonical = bech.canonicalize(JUNO_ADDRESS).unwrap();
    assert_eq!(JUNO_ADDRESS.as_bytes(), canonical.as_slice());
    assert_eq!(JUNO_ADDRESS, bech.humanize(&canonical).unwrap());
}

#[test]
fn very_long_input_does_not_crash() {
    let bech = Bech::default();
    let long = "x".repeat(600);
    let canonical = bech.canonicalize(&long).unwrap();
    assert_eq!(long, bech.humanize(&canonical).unwrap());
}

#[test]
fn canonicalize_fails_for_rejected_prefix() {
    // An empty prefix is rejected by the codec, so plain text cannot be
    // wrapped and canonicalization reports failure instead of panicking.
    let bech = Bech::new_b32("");
    assert_eq!(None, bech.canonicalize("foobar123"));
}

#[test]
fn humanize_fails_for_foreign_prefix() {
    // Checksummed text of an unrelated prefix is neither public nor internal.
    let bech = Bech::default();
    assert_eq!(None, bech.humanize(JUNO_ADDRESS.as_bytes()));
}

#[test]
fn humanize_rebuilds_text_from_raw_bytes() {
    // Raw, non-text canonical bytes are re-encoded under the public prefix.
    let bech = Bech::new_b32("juno");
    let raw: Vec<u8> = vec![0xFF, 0x00, 0x7F, 0x33];
    let human = bech.humanize(&raw).unwrap();
    assert!(human.starts_with("juno1"));
    // The rebuilt text is canonical: it passes through unchanged.
    let canonical = bech.canonicalize(&human).unwrap();
    assert_eq!(human.as_bytes(), canonical.as_slice());
}
