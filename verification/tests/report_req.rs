use csv_rs::guest::ReportReq;

#[test]
pub fn test_new() {
    let data: [u8; 64] = [
        103, 198, 105, 115, 81, 255, 74, 236, 41, 205, 186, 171, 242, 251, 227, 70, 124, 194, 84,
        248, 27, 232, 231, 141, 118, 90, 46, 99, 51, 159, 201, 154, 102, 50, 13, 183, 49, 88, 163,
        90, 37, 93, 5, 23, 88, 233, 94, 212, 171, 178, 205, 198, 155, 180, 84, 17, 14, 130, 116,
        65, 33, 61, 220, 135,
    ];
    let mnonce: [u8; 16] = [
        112, 233, 62, 161, 65, 225, 252, 103, 62, 1, 126, 151, 234, 220, 107, 150,
    ];
    let hash: [u8; 32] = [
        19, 76, 8, 98, 33, 246, 247, 155, 28, 21, 245, 185, 118, 74, 162, 128, 82, 15, 160, 233,
        212, 130, 106, 177, 89, 6, 119, 243, 130, 21, 3, 153,
    ];
    let expected: ReportReq = ReportReq { data, mnonce, hash };

    let actual: ReportReq = ReportReq::new(Some(data), mnonce).unwrap();

    assert_eq!(expected, actual);
}

#[test]
#[should_panic]
pub fn test_new_error() {
    let data: [u8; 64] = [
        103, 198, 105, 115, 81, 255, 74, 236, 41, 205, 186, 171, 242, 251, 227, 70, 124, 194, 84,
        248, 27, 232, 231, 141, 118, 90, 46, 99, 51, 159, 201, 154, 102, 50, 13, 183, 49, 88, 163,
        90, 37, 93, 5, 23, 88, 233, 94, 212, 171, 178, 205, 198, 155, 180, 84, 17, 14, 130, 116,
        65, 33, 61, 220, 135,
    ];
    let mnonce: [u8; 16] = [
        112, 233, 62, 161, 65, 225, 252, 103, 62, 1, 126, 151, 234, 220, 107, 150,
    ];
    let wrong_mnonce: [u8; 16] = [
        0, 233, 62, 161, 65, 225, 252, 103, 62, 1, 126, 151, 234, 220, 107, 150,
    ];
    let hash: [u8; 32] = [
        19, 76, 8, 98, 33, 246, 247, 155, 28, 21, 245, 185, 118, 74, 162, 128, 82, 15, 160, 233,
        212, 130, 106, 177, 89, 6, 119, 243, 130, 21, 3, 153,
    ];
    let expected: ReportReq = ReportReq { data, mnonce, hash };

    let actual: ReportReq = ReportReq::new(Some(data), wrong_mnonce).unwrap();

    assert_eq!(expected, actual);
}

#[test]
fn default_is_all_zero() {
    let req = ReportReq::default();
    assert_eq!(req.data, [0u8; 64]);
    assert_eq!(req.mnonce, [0u8; 16]);
    assert_eq!(req.hash, [0u8; 32]);
}

#[test]
fn omitted_data_defaults_to_zero() {
    let mnonce: [u8; 16] = [1; 16];
    let with_none = ReportReq::new(None, mnonce).unwrap();
    let with_zero = ReportReq::new(Some([0u8; 64]), mnonce).unwrap();
    assert_eq!(with_none, with_zero);
    assert_eq!(with_none.data, [0u8; 64]);
}

#[test]
fn wire_form_is_112_bytes_in_field_order() {
    let data: [u8; 64] = [7; 64];
    let mnonce: [u8; 16] = [9; 16];
    let req = ReportReq::new(Some(data), mnonce).unwrap();
    let wire = req.to_bytes();
    assert_eq!(wire.len(), 112);
    assert_eq!(&wire[..64], &data[..]);
    assert_eq!(&wire[64..80], &mnonce[..]);
    assert_eq!(&wire[80..112], &req.hash[..]);
}

#[test]
fn hash_is_platform_digest_of_data_and_mnonce() {
    let data: [u8; 64] = [0x12; 64];
    let mnonce: [u8; 16] = [0x34; 16];
    let req = ReportReq::new(Some(data), mnonce).unwrap();

    let mut hasher = openssl::hash::Hasher::new(openssl::hash::MessageDigest::sm3()).unwrap();
    hasher.update(&data).unwrap();
    hasher.update(&mnonce).unwrap();
    let digest = hasher.finish().unwrap();
    assert_eq!(req.hash.as_slice(), digest.as_ref());
}
