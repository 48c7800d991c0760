use pontifex::kms::{Credentials, VSOCK_PROXY_CID};

#[test]
fn credentials_are_built() {
    let _c = Credentials::new(String::from("AKID"), String::from("SECRET-REDACTED"), None);
    assert_eq!(VSOCK_PROXY_CID, 3);
}
