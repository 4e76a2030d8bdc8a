use crypt3::{crypt, format_from_magic, CryptError};
use md5::compute;
use ring::digest;

#[test]
fn format_from_magic_returns_md5() {
    let x = format_from_magic(String::from("$1$").as_bytes());
    assert_eq!("md5", x.unwrap().0);
}

#[test]
fn md5_works() {
    let password = b"abcdefghijklmnop";
    let salt = b"$1$";
    let digest = crypt(password, salt).unwrap();
    let md5 = compute("abcdefghijklmnop");
    let mut expected = salt.to_vec();
    expected.push(b'$');
    expected.extend(md5.to_vec().iter());
    println!("{:?}", &expected);
    assert_eq!(digest, expected);
}

#[test]
fn sha256_works() {
    let password = b"309ecc489c12d6eb4cc40f50c902f2b4d0ed77ee511a7c7a9bcd3ca86d4cd86f
        989dd35bc5ff499670da34255b45b0cfd830e81f605dcf7dc5542e93ae9cd76fc";
    let salt = b"$5$";
    let digest = crypt(password, salt).unwrap();
    let sha256 = digest::digest(&digest::SHA256, &password[..]);
    let mut expected = salt.to_vec();
    expected.push(b'$');
    expected.extend_from_slice(sha256.as_ref());
    assert_eq!(digest, expected);
}

#[test]
fn sha512_works() {
    let password = b"309ecc489c12d6eb4cc40f50c902f2b4d0ed77ee511a7c7a9bcd3ca86d4cd86f
        989dd35bc5ff499670da34255b45b0cfd830e81f605dcf7dc5542e93ae9cd76fc";
    let salt = b"$6$";
    let digest = crypt(password, salt).unwrap();
    let sha512 = digest::digest(&digest::SHA512, &password[..]);
    let mut expected = salt.to_vec();
    expected.push(b'$');
    expected.extend_from_slice(sha512.as_ref());
    assert_eq!(digest, expected);
}

#[test]
fn md5_reference_digest_bytes() {
    let digest = crypt(b"abcdefghijklmnop", b"$1$").unwrap();
    assert_eq!(
        digest,
        [36, 49, 36, 36, 29, 100, 220, 226, 57, 196, 67, 123, 119, 54, 4, 29, 176, 137, 225, 185]
    );
}

#[test]
fn resolution_honors_each_marker() {
    assert_eq!("md5", format_from_magic(b"$1$abc").unwrap().0);
    assert_eq!("blf", format_from_magic(b"$2a$07$xyz").unwrap().0);
    assert_eq!("nth", format_from_magic(b"$3$").unwrap().0);
    assert_eq!("sha256", format_from_magic(b"$5$rounds").unwrap().0);
    assert_eq!("sha512", format_from_magic(b"$6$rounds").unwrap().0);
}

#[test]
fn resolution_falls_back_to_catch_all() {
    let x = format_from_magic(b"no marker here").unwrap();
    assert_eq!("des", x.0);
    assert_eq!("", x.1);
    assert_eq!("des", format_from_magic(b"").unwrap().0);
}

#[test]
fn resolution_is_first_match_in_registry_order() {
    // The salt carries the md5 marker, and the catch-all's empty marker
    // is a prefix of it as well; the earlier entry must win.
    let x = format_from_magic(b"$1$ambiguous").unwrap();
    assert_eq!("md5", x.0);
    assert_eq!("$1$", x.1);
    // A salt with several dollar markers inside: only the one the salt
    // begins with counts.
    let y = format_from_magic(b"$2$1$5$").unwrap();
    assert_eq!("blf", y.0);
}

#[test]
fn unsupported_algorithms_are_distinguished() {
    assert_eq!(
        crypt(b"secret", b"$2a$07$salt"),
        Err(CryptError::UnsupportedAlgorithm)
    );
    assert_eq!(crypt(b"secret", b"$3$"), Err(CryptError::UnsupportedAlgorithm));
    // The catch-all des entry resolves, but no primitive is wired up.
    assert_eq!(crypt(b"secret", b""), Err(CryptError::UnsupportedAlgorithm));
    assert_eq!(
        crypt(b"secret", b"plainsalt"),
        Err(CryptError::UnsupportedAlgorithm)
    );
}

#[test]
fn crypt_is_idempotent() {
    assert_eq!(crypt(b"pw", b"$1$aa"), crypt(b"pw", b"$1$aa"));
    assert_eq!(crypt(b"pw", b"$5$bb"), crypt(b"pw", b"$5$bb"));
    assert_eq!(crypt(b"pw", b"$6$cc"), crypt(b"pw", b"$6$cc"));
    assert_eq!(crypt(b"pw", b"$2$dd"), crypt(b"pw", b"$2$dd"));
}

#[test]
fn output_begins_with_salt_and_separator() {
    let salt = b"$6$somesalt";
    let out = crypt(b"password", salt).unwrap();
    assert_eq!(&out[..salt.len()], &salt[..]);
    assert_eq!(out[salt.len()], b'$');
    // SHA-512 digests are 64 bytes.
    assert_eq!(out.len(), salt.len() + 1 + 64);
}
