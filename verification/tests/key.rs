use csv_rs::crypto::{generate_mnonce, tag_matches};
use csv_rs::error::Error;
use csv_rs::key::{to_curve_point, Group, PubKey, GROUP_ID_PRIME256V1, GROUP_ID_SM2};

#[test]
fn group_sizes_and_unsupported_ids() {
    assert_eq!(Group { id: GROUP_ID_PRIME256V1 }.size().unwrap(), 32);
    assert_eq!(Group { id: GROUP_ID_SM2 }.size().unwrap(), 32);
    assert_eq!(Group { id: 0 }.size().unwrap_err(), Error::UnsupportedGroup);
    assert_eq!(Group { id: 999 }.size().unwrap_err(), Error::UnsupportedGroup);
}

#[test]
fn unsupported_group_is_reported() {
    let key = PubKey { g: Group { id: 0 }, x: [0u8; 72], y: [0u8; 72] };
    assert_eq!(to_curve_point(&key).unwrap_err(), Error::UnsupportedGroup);
}

#[test]
fn coordinates_off_the_curve_are_rejected() {
    let mut x = [0u8; 72];
    let mut y = [0u8; 72];
    x[0] = 1;
    y[0] = 1;
    let key = PubKey { g: Group { id: GROUP_ID_PRIME256V1 }, x, y };
    assert_eq!(to_curve_point(&key).unwrap_err(), Error::InvalidPoint);
}

#[test]
fn a_genuine_point_converts() {
    // build raw key material from a freshly generated P-256 key
    let group =
        openssl::ec::EcGroup::from_curve_name(openssl::nid::Nid::X9_62_PRIME256V1).unwrap();
    let generated = openssl::ec::EcKey::generate(&group).unwrap();
    let mut ctx = openssl::bn::BigNumContext::new().unwrap();
    let mut x_bn = openssl::bn::BigNum::new().unwrap();
    let mut y_bn = openssl::bn::BigNum::new().unwrap();
    generated
        .public_key()
        .affine_coordinates_gfp(&group, &mut x_bn, &mut y_bn, &mut ctx)
        .unwrap();

    let mut x = [0u8; 72];
    let mut y = [0u8; 72];
    for (i, b) in x_bn.to_vec().iter().rev().enumerate() {
        x[i] = *b;
    }
    for (i, b) in y_bn.to_vec().iter().rev().enumerate() {
        y[i] = *b;
    }
    let key = PubKey { g: Group { id: GROUP_ID_PRIME256V1 }, x, y };
    assert!(to_curve_point(&key).is_ok());
}

#[test]
fn generated_mnonces_are_sixteen_fresh_bytes() {
    let a = generate_mnonce();
    let b = generate_mnonce();
    assert_eq!(a.len(), 16);
    // two secure draws of 128 bits never collide in practice
    assert_ne!(a, b);
}

#[test]
fn tag_matching_is_exact() {
    let mac = [0x42u8; 32];
    assert!(tag_matches(&[0x42u8; 32], &mac));
    let mut other = [0x42u8; 32];
    other[31] = 0x43;
    assert!(!tag_matches(&other, &mac));
    assert!(!tag_matches(&[0x42u8; 31], &mac));
    assert!(!tag_matches(&[], &mac));
}
