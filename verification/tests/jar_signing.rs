use rsa::pkcs8::EncodePrivateKey;
use std::io::{Read, Write};

use jarsigner::{
    check_signature, extract_public_key, extract_signature_bytes, generate_key_pair,
    generate_signing_credentials, is_signed, sign_bytes, sign_bytes_with_cert_chain, verify,
    JarError,
};
use zip::write::{FileOptions, SimpleFileOptions};
use zip::ZipArchive;

fn create_test_jar() -> Vec<u8> {
    let mut buffer = Vec::new();
    {
        let mut writer = zip::ZipWriter::new(std::io::Cursor::new(&mut buffer));

        let options: SimpleFileOptions =
            FileOptions::default().compression_method(zip::CompressionMethod::Stored);

        writer.start_file("test.txt", options).unwrap();
        writer.write_all(b"Hello, World!").unwrap();

        let dir_options: SimpleFileOptions = FileOptions::default().unix_permissions(0o40755);
        writer.start_file("META-INF/", dir_options).unwrap();
        writer.start_file("META-INF/config.xml", options).unwrap();
        writer.write_all(b"<config/>").unwrap();

        writer.finish().unwrap();
    }
    buffer
}

fn create_jar(entries: &[(&str, &[u8])]) -> Vec<u8> {
    let mut buffer = Vec::new();
    {
        let mut writer = zip::ZipWriter::new(std::io::Cursor::new(&mut buffer));
        let options: SimpleFileOptions = FileOptions::default();
        for (name, data) in entries {
            writer.start_file(*name, options).unwrap();
            writer.write_all(data).unwrap();
        }
        writer.finish().unwrap();
    }
    buffer
}

fn read_entries(jar: &[u8]) -> Vec<(String, Vec<u8>)> {
    let mut zip = ZipArchive::new(std::io::Cursor::new(jar)).unwrap();
    let mut out = Vec::new();
    for i in 0..zip.len() {
        let mut file = zip.by_index(i).unwrap();
        let name = file.name().to_string();
        let mut data = Vec::new();
        file.read_to_end(&mut data).unwrap();
        out.push((name, data));
    }
    out
}

fn entry<'a>(entries: &'a [(String, Vec<u8>)], name: &str) -> Option<&'a Vec<u8>> {
    entries.iter().find(|(n, _)| n == name).map(|(_, d)| d)
}

#[test]
fn test_generate_key_pair() {
    let (priv_key, pub_key) = generate_key_pair().unwrap();
    assert!(!priv_key.is_empty());
    assert!(!pub_key.is_empty());
    assert!(priv_key.len() > 100);
    assert!(pub_key.len() > 100);
}

#[test]
fn test_generate_signing_credentials() {
    let (priv_key, pub_key) = generate_signing_credentials().unwrap();
    assert!(!priv_key.is_empty());
    assert!(!pub_key.is_empty());
    assert!(priv_key.len() > 100);
    assert!(pub_key.len() > 100);
}

#[test]
fn test_sign_bytes() {
    let jar_bytes = create_test_jar();
    let (priv_key, _) = generate_key_pair().unwrap();

    let signed_jar = sign_bytes(&jar_bytes, &priv_key, "", false).unwrap();

    assert!(!signed_jar.is_empty());
    assert!(signed_jar.len() > jar_bytes.len());
}

#[test]
fn test_sign_bytes_with_cert_chain() {
    let jar_bytes = create_test_jar();
    let (priv_key, _) = generate_signing_credentials().unwrap();
    let cert_chain: Vec<Vec<u8>> = vec![];

    let signed_jar = sign_bytes_with_cert_chain(
        &jar_bytes,
        &priv_key,
        Some(cert_chain.as_slice()),
        "",
        false,
        |_, _| {},
    )
    .unwrap();

    assert!(!signed_jar.is_empty());
    assert!(signed_jar.len() > jar_bytes.len());
}

#[test]
fn test_sign_bytes_override_signature() {
    let jar_bytes = create_test_jar();
    let (priv_key, _) = generate_key_pair().unwrap();

    let signed_once = sign_bytes(&jar_bytes, &priv_key, "", false).unwrap();
    let signed_twice = sign_bytes(&signed_once, &priv_key, "", true).unwrap();

    assert!(!signed_twice.is_empty());
}

#[test]
fn test_is_signed() {
    let jar_bytes = create_test_jar();
    let (priv_key, _) = generate_key_pair().unwrap();

    assert!(!is_signed(&jar_bytes).unwrap());

    let signed_jar = sign_bytes(&jar_bytes, &priv_key, "", false).unwrap();
    assert!(is_signed(&signed_jar).unwrap());
}

#[test]
fn test_extract_signature_bytes() {
    let jar_bytes = create_test_jar();
    let (priv_key, _) = generate_key_pair().unwrap();

    let result = extract_signature_bytes(&jar_bytes);
    assert!(result.is_ok());
    assert!(result.unwrap().is_none());

    let signed_jar = sign_bytes(&jar_bytes, &priv_key, "", false).unwrap();
    let result = extract_signature_bytes(&signed_jar);
    assert!(result.is_ok());
    assert!(result.unwrap().is_some());
}

#[test]
fn test_verify() {
    let jar_bytes = create_test_jar();
    let (priv_key, pub_key) = generate_key_pair().unwrap();

    let signed_jar = sign_bytes(&jar_bytes, &priv_key, "", false).unwrap();

    let result = verify(&signed_jar, &pub_key);
    assert!(result.is_ok());
}

#[test]
fn test_extract_public_key() {
    let jar_bytes = create_test_jar();
    let (priv_key, _) = generate_signing_credentials().unwrap();
    let cert_chain: Vec<Vec<u8>> = vec![];

    let signed_jar = sign_bytes_with_cert_chain(
        &jar_bytes,
        &priv_key,
        Some(cert_chain.as_slice()),
        "",
        false,
        |_, _| {},
    )
    .unwrap();

    let result = extract_public_key(&signed_jar);
    assert!(result.is_ok());
}

#[test]
fn test_sign_empty_jar() {
    let mut buffer = Vec::new();
    {
        let writer = zip::ZipWriter::new(std::io::Cursor::new(&mut buffer));
        writer.finish().unwrap();
    }

    let (priv_key, _) = generate_key_pair().unwrap();
    let signed_jar = sign_bytes(&buffer, &priv_key, "", false).unwrap();

    assert!(!signed_jar.is_empty());
}

#[test]
fn test_sign_jar_with_meta_inf_files() {
    let jar_bytes = create_test_jar();
    let (priv_key, _) = generate_key_pair().unwrap();

    let signed_jar = sign_bytes(&jar_bytes, &priv_key, "", false).unwrap();

    let cursor = std::io::Cursor::new(&signed_jar);
    let mut zip = ZipArchive::new(cursor).unwrap();

    let mut has_manifest = false;
    let mut has_sf = false;
    let mut has_rsa = false;

    for i in 0..zip.len() {
        let file = zip.by_index(i).unwrap();
        let name = file.name();

        if name == "META-INF/MANIFEST.MF" {
            has_manifest = true;
        } else if name == "META-INF/SIGNATURE.SF" {
            has_sf = true;
        } else if name == "META-INF/SIGNATURE.RSA" {
            has_rsa = true;
        }
    }

    assert!(has_manifest);
    assert!(has_sf);
    assert!(has_rsa);
}

#[test]
fn test_invalid_key() {
    let jar_bytes = create_test_jar();
    let invalid_key = b"invalid key data";

    let result = sign_bytes(&jar_bytes, invalid_key, "", false);
    assert!(result.is_err());
}

#[test]
fn test_invalid_jar() {
    let invalid_jar = b"not a jar";
    let (priv_key, _) = generate_key_pair().unwrap();

    let result = sign_bytes(invalid_jar, &priv_key, "", false);
    assert!(result.is_err());
}

fn from_hex(parts: &[&str]) -> Vec<u8> {
    hex::decode(parts.concat()).unwrap()
}

fn fixture_private_key() -> Vec<u8> {
    from_hex(KEY_A_HEX)
}

#[test]
fn signed_jar_layout_and_manifest_text() {
    let jar_bytes = create_test_jar();
    let priv_key = fixture_private_key();
    let signed_jar = sign_bytes(&jar_bytes, &priv_key, "", false).unwrap();
    let entries = read_entries(&signed_jar);
    let names: Vec<&str> = entries.iter().map(|(n, _)| n.as_str()).collect();
    assert_eq!(
        names,
        vec![
            "test.txt",
            "META-INF/",
            "META-INF/config.xml",
            "META-INF/MANIFEST.MF",
            "META-INF/SIGNATURE.SF",
            "META-INF/SIGNATURE.RSA",
        ]
    );
    assert_eq!(entry(&entries, "test.txt").unwrap(), b"Hello, World!");
    assert_eq!(entry(&entries, "META-INF/config.xml").unwrap(), b"<config/>");
    let manifest = String::from_utf8(entry(&entries, "META-INF/MANIFEST.MF").unwrap().clone()).unwrap();
    assert_eq!(
        manifest,
        "Manifest-Version: 1.0\r\nCreated-By: jarsigned\r\n\r\nName: test.txt\r\nSHA-256-Digest: 3/1gIbsr1bCvZ2KQgJ7DpTGR3YHH9wpLKGiKNiGCmG8=\r\n\r\n"
    );
    let sf = String::from_utf8(entry(&entries, "META-INF/SIGNATURE.SF").unwrap().clone()).unwrap();
    assert_eq!(
        sf,
        "Signature-Version: 1.0\r\nSHA-256-Digest-Manifest: AX780wDyNp4t8xNiY+P6VkMpQ/nNWpNOLTqrjQPkN64=\r\nSHA-256-Digest-Manifest-Main-Attributes: BFzOBNOE7Nqo3bN/MsqHBqeaZO8ni0eB/OnmM7AXe/o=\r\nSigned-By: jarsigned\r\n\r\nName: test.txt\r\nSHA-256-Digest: 3/1gIbsr1bCvZ2KQgJ7DpTGR3YHH9wpLKGiKNiGCmG8=\r\n\r\n"
    );
    assert_eq!(entry(&entries, "META-INF/SIGNATURE.RSA").unwrap(), &from_hex(SIG_A_HEX));
    assert_eq!(verify(&signed_jar, &from_hex(PUB_A_HEX)), Ok(true));
}

#[test]
fn signing_adds_meta_inf_directory_when_missing() {
    let jar_bytes = create_jar(&[("a.txt", b"a"), ("b/c.txt", b"c")]);
    let priv_key = fixture_private_key();
    let pub_key = from_hex(PUB_A_HEX);
    let signed_jar = sign_bytes(&jar_bytes, &priv_key, "", false).unwrap();
    let entries = read_entries(&signed_jar);
    let names: Vec<&str> = entries.iter().map(|(n, _)| n.as_str()).collect();
    assert_eq!(
        names,
        vec![
            "a.txt",
            "b/c.txt",
            "META-INF/",
            "META-INF/MANIFEST.MF",
            "META-INF/SIGNATURE.SF",
            "META-INF/SIGNATURE.RSA",
        ]
    );
    assert_eq!(verify(&signed_jar, &pub_key), Ok(true));
}

#[test]
fn resigning_without_override_is_refused() {
    let jar_bytes = create_test_jar();
    let priv_key = fixture_private_key();
    let signed_once = sign_bytes(&jar_bytes, &priv_key, "", false).unwrap();
    let result = sign_bytes(&signed_once, &priv_key, "", false);
    assert_eq!(result, Err(JarError::ManifestStartFailed));
}

#[test]
fn override_replaces_signature_files() {
    let jar_bytes = create_jar(&[
        ("x.txt", b"x"),
        ("META-INF/OLD.sf", b"old"),
        ("META-INF/Key.Rsa", b"old"),
        ("META-INF/k.ec", b"old"),
        ("META-INF/manifest.mf", b"old"),
        ("META-INF/keep.txt", b"kept"),
    ]);
    let priv_key = fixture_private_key();
    let pub_key = from_hex(PUB_A_HEX);
    let signed_jar = sign_bytes(&jar_bytes, &priv_key, "", true).unwrap();
    let entries = read_entries(&signed_jar);
    let names: Vec<&str> = entries.iter().map(|(n, _)| n.as_str()).collect();
    assert_eq!(
        names,
        vec![
            "x.txt",
            "META-INF/keep.txt",
            "META-INF/",
            "META-INF/MANIFEST.MF",
            "META-INF/SIGNATURE.SF",
            "META-INF/SIGNATURE.RSA",
        ]
    );
    assert_eq!(verify(&signed_jar, &pub_key), Ok(true));

    let resigned = sign_bytes(&signed_jar, &priv_key, "", true).unwrap();
    let again: Vec<String> = read_entries(&resigned).into_iter().map(|(n, _)| n).collect();
    assert_eq!(again.iter().filter(|n| n.as_str() == "META-INF/MANIFEST.MF").count(), 1);
    assert_eq!(verify(&resigned, &pub_key), Ok(true));
}

#[test]
fn verify_with_other_key_fails() {
    let jar_bytes = create_test_jar();
    let priv_key = fixture_private_key();
    let other_pub = from_hex(PUB_B_HEX);
    let signed_jar = sign_bytes(&jar_bytes, &priv_key, "", false).unwrap();
    assert_eq!(verify(&signed_jar, &other_pub), Ok(false));
}

#[test]
fn verify_errors_and_short_blocks() {
    let pub_key = from_hex(PUB_A_HEX);
    assert_eq!(verify(b"not a jar", &pub_key), Err(JarError::InvalidArchive));
    assert_eq!(verify(&create_test_jar(), &pub_key), Err(JarError::MissingSignatureFile));
    let only_sf = create_jar(&[("META-INF/A.SF", b"sf")]);
    assert_eq!(verify(&only_sf, &pub_key), Err(JarError::MissingSignatureBlock));
    let short = create_jar(&[("META-INF/A.SF", b"sf"), ("META-INF/A.RSA", &[7u8; 10])]);
    assert_eq!(verify(&short, &pub_key), Ok(false));
    let medium = create_jar(&[("META-INF/A.SF", b"sf"), ("META-INF/A.DSA", &[7u8; 100])]);
    assert_eq!(verify(&medium, &pub_key), Ok(false));
    let long = create_jar(&[("META-INF/A.SF", b"sf"), ("META-INF/A.RSA", &[7u8; 256])]);
    assert_eq!(verify(&long, &pub_key), Ok(false));
    assert_eq!(verify(&long, b"bad key"), Err(JarError::InvalidPublicKey));
}

#[test]
fn check_signature_rejects_bad_public_key() {
    assert_eq!(check_signature(b"sf", &[0u8; 256], b"nope"), Err(JarError::InvalidPublicKey));
}

#[test]
fn inspection_of_non_archives_and_plain_jars() {
    assert_eq!(is_signed(b"not a jar"), Err(JarError::InvalidArchive));
    assert_eq!(extract_signature_bytes(b"not a jar"), Err(JarError::InvalidArchive));
    assert_eq!(extract_public_key(b"not a jar"), Err(JarError::InvalidArchive));
    let plain = create_jar(&[("META-INF/notes.sf", b"lower-case suffix"), ("a", b"b")]);
    assert_eq!(is_signed(&plain), Ok(false));
    assert_eq!(extract_signature_bytes(&plain), Ok(None));
    let block = create_jar(&[("META-INF/X.DSA", b"block"), ("META-INF/Y.SF", b"file")]);
    assert_eq!(is_signed(&block), Ok(true));
    assert_eq!(extract_signature_bytes(&block), Ok(Some(b"block".to_vec())));
    assert_eq!(extract_public_key(&block), Ok(None));
}

#[test]
fn signed_jar_signature_bytes_come_first_found() {
    let jar_bytes = create_test_jar();
    let priv_key = fixture_private_key();
    let signed_jar = sign_bytes(&jar_bytes, &priv_key, "", false).unwrap();
    let entries = read_entries(&signed_jar);
    let sf = entry(&entries, "META-INF/SIGNATURE.SF").unwrap().clone();
    assert_eq!(extract_signature_bytes(&signed_jar), Ok(Some(sf)));
    assert_eq!(extract_public_key(&signed_jar), Ok(None));
}

#[test]
fn progress_reports_each_copied_entry() {
    let jar_bytes = create_test_jar();
    let priv_key = fixture_private_key();
    let mut events: Vec<(String, bool)> = Vec::new();
    let signed = sign_bytes_with_cert_chain(&jar_bytes, &priv_key, None, "", false, |name, done| {
        events.push((name, done))
    });
    assert!(signed.is_ok());
    assert_eq!(
        events,
        vec![
            ("test.txt".to_string(), false),
            ("test.txt".to_string(), true),
            ("META-INF/".to_string(), false),
            ("META-INF/".to_string(), true),
            ("META-INF/config.xml".to_string(), false),
            ("META-INF/config.xml".to_string(), true),
        ]
    );
}

#[test]
fn key_pair_signs_and_verifies_ignoring_passcode() {
    let priv_key = fixture_private_key();
    let pub_key = from_hex(PUB_A_HEX);
    let jar = create_jar(&[("hello.txt", b"hi")]);
    let signed = sign_bytes(&jar, &priv_key, "ignored", false).unwrap();
    assert_eq!(is_signed(&signed), Ok(true));
    assert_eq!(verify(&signed, &pub_key), Ok(true));
}

fn corrupt_first(jar: &mut [u8], needle: &[u8]) {
    let pos = jar
        .windows(needle.len())
        .position(|w| w == needle)
        .unwrap();
    jar[pos] ^= 0xff;
}

#[test]
fn unreadable_file_content_is_reported() {
    let mut jar_bytes = create_test_jar();
    corrupt_first(&mut jar_bytes, b"Hello, World!");
    let priv_key = fixture_private_key();
    assert_eq!(sign_bytes(&jar_bytes, &priv_key, "", false), Err(JarError::EntryReadFailed(0)));
    assert_eq!(is_signed(&jar_bytes), Ok(false));
}

#[test]
fn unreadable_meta_inf_content_fails_the_copy() {
    let mut jar_bytes = create_test_jar();
    corrupt_first(&mut jar_bytes, b"<config/>");
    let priv_key = fixture_private_key();
    assert_eq!(sign_bytes(&jar_bytes, &priv_key, "", false), Err(JarError::EntryCopyFailed(2)));
}

#[test]
fn unopenable_entry_is_reported() {
    let mut jar_bytes = create_test_jar();
    assert_eq!(&jar_bytes[0..4], b"PK\x03\x04");
    jar_bytes[3] = 0x05;
    let priv_key = fixture_private_key();
    let pub_key = from_hex(PUB_A_HEX);
    assert_eq!(sign_bytes(&jar_bytes, &priv_key, "", false), Err(JarError::EntryUnavailable(0)));
    assert_eq!(is_signed(&jar_bytes), Err(JarError::EntryUnavailable(0)));
    assert_eq!(extract_signature_bytes(&jar_bytes), Err(JarError::EntryUnavailable(0)));
    assert_eq!(verify(&jar_bytes, &pub_key), Err(JarError::EntryUnavailable(0)));
}

fn set_first_compression(jar: &mut [u8], method: u16) {
    let local = jar.windows(4).position(|w| w == b"PK\x03\x04").unwrap();
    jar[local + 8..local + 10].copy_from_slice(&method.to_le_bytes());
    let central = jar.windows(4).position(|w| w == b"PK\x01\x02").unwrap();
    jar[central + 10..central + 12].copy_from_slice(&method.to_le_bytes());
}

#[test]
fn entries_the_writer_cannot_compress_are_refused() {
    let mut buffer = Vec::new();
    {
        let mut writer = zip::ZipWriter::new(std::io::Cursor::new(&mut buffer));
        let stored: SimpleFileOptions =
            FileOptions::default().compression_method(zip::CompressionMethod::Stored);
        writer.start_file("META-INF/extra.txt", stored).unwrap();
        writer.write_all(b"abc").unwrap();
        writer.start_file("a.txt", stored).unwrap();
        writer.write_all(b"hello").unwrap();
        writer.finish().unwrap();
    }
    let priv_key = fixture_private_key();
    assert!(sign_bytes(&buffer, &priv_key, "", false).is_ok());
    set_first_compression(&mut buffer, 9);
    assert_eq!(sign_bytes(&buffer, &priv_key, "", false), Err(JarError::EntryStartFailed(0)));
}

#[test]
fn invalid_key_and_archive_errors_are_exact() {
    let priv_key = fixture_private_key();
    assert_eq!(sign_bytes(b"not a jar", b"invalid key data", "", false), Err(JarError::InvalidKey));
    assert_eq!(sign_bytes(b"not a jar", &priv_key, "", false), Err(JarError::InvalidArchive));
}

#[test]
fn too_small_key_cannot_sign() {
    let key = rsa::RsaPrivateKey::new(&mut rand::thread_rng(), 256).unwrap();
    let der = key.to_pkcs8_der().unwrap().as_bytes().to_vec();
    let jar_bytes = create_test_jar();
    assert_eq!(sign_bytes(&jar_bytes, &der, "", false), Err(JarError::SigningFailed));
}

/// A 2048-bit RSA private key (PKCS#8 DER), as hex.
const KEY_A_HEX: &[&str] = &[
    "308204be020100300d06092a864886f70d0101010500048204a8308204a4020100028201010092f4db776c43cf3f6e09",
    "e3fefa875fead231fc3100c3344b1e1f42c061f6456bd9e43dc356665f683d6a92ef1bf47a9a7f75989b252c88b46fcd",
    "1037edce13852896db71495a177e519f864740721548a7eb90237ccce644a32115a3fde525e19bbe97e4cb9033125c8a",
    "8e1ba41566b0e6298f5b92496c6ab374e83aa4c98d24eff4b71e921dc0b41fa64867000362a745029eeda814228cdab4",
    "5aab8ce0dca2599651d61a875de63a69065359b8f3638eb8cc79365c0bf22891e24212e04a1babcc53eee2aa2574d535",
    "cc6bf21b435cb619eda1a1667ec5c180554394c6a368cd88d1bd942140149642a954a46c10242d05ee871c933acd3fdb",
    "99042f0b37810203010001028201004754c90e7fa3ae7e48684e9dde77456c92d8a66416cda99d68a29de109ebe32885",
    "9c0f0ab8ee7a12fbf4b61b90032c5bbfd091e184bac824653c314a2488e9dab1a8001e4e0f87e5cdb2d417d3c54c6576",
    "f49583543994efee0aca194ecd22850ef7057d8dfd917cb124a3f3f0c25e9531332d1db2b52705e7d3b0417ee94233d6",
    "639b5b32e8ef70a8b8b114ce66fa1a5e7d12af84043ad0fd4067561786f44fc6f75c95b9581c72fbf769aba2d24cb4d9",
    "170b9bb28343ebc16a4aa8dbbec2ef6fdc609b58e1ca11fb91d1582ff280d033aadbd16d23ba1acf586b284cfeb1b4cb",
    "b4b576be36439ef23d78b3821bb4a12e953ebc7b445d7a4d74a7da33ee6bfd02818100c3c162514c2b0b98a31f8e9329",
    "80c1ee8dd237e868100ff9a2539decb541d28eadd909e3ad9ec8d12a08d6f08c61938372261664fd7b7616a9f3fbedad",
    "6604533a6a8ec1f312f65cecd532a3ad02b07e9ad3cdf3f914d4d7f8ed6b51cd569c0b8601bb28d53e6eaf4ab0d01dbd",
    "ae3df71cb663d4b828faf36814004a4f078b0302818100c02ed7c0b9991a7a324f229823305a95a3c23f157bfcf7ca87",
    "c58b41d9600f890488e31e67df41c6027d93ddf52309842564dffc0be24389fe9ab6595dd3d60ca9d84a5d481272c873",
    "059575f309adfd7ae0cb1ac429875e5108b5a5538771022765dbcc5940f176a17528d63e7535d24b3d4575456eeb4629",
    "c6bba74b884a2b02818100a105f12ef89dabf349b38a9f29139df2f23c0afb24a699cd79a698907ee4ff239883a0ebe5",
    "0469220d16aa5fc2c9fd02b221fc67e44eeb6b672fa87af118aad41f884997e6b021717ceb3eb57e7a68de2bd3b06550",
    "edbecb4d1b571d39f05579f1287960f4505fd1d779ac27dac07a7e4be3082991b73bfe7f0d7cd3a3408c2b02818035a3",
    "dd6c59613656acfc1177cd3a8dcdfe6b15187606e152921abd07a01883bd869a7e69da2c223b962e5ebb30d49aaf5b90",
    "9043d53d4e04921fb48db4f68f63f174012d9014361d649d465e297ba6287dc78868ec1f7b3d03f91e5a0aba5efc6eea",
    "ab329a26da3e764a311fbb4713c2a26573a18bc3adbf63a1a876c54a410902818100b6a169d463b3056dcab6187f6f6d",
    "8284058cb8c65b404bc15b1e5c01f336b9dc067fe4f2a6c6441b045a6efdac09655f077f43fa5e6f23015256b5b52138",
    "ec0a27d5b802229a55af1720c4480b5e7b2d2702983ba619e46bc4bc2710032bb49c7001c2827a907e16b94782daad37",
    "8864fe3552b21a9f02721c14ec532102097e",
];

/// The public key of `KEY_A_HEX` (DER SubjectPublicKeyInfo), as hex.
const PUB_A_HEX: &[&str] = &[
    "30820122300d06092a864886f70d01010105000382010f003082010a028201010092f4db776c43cf3f6e09e3fefa875f",
    "ead231fc3100c3344b1e1f42c061f6456bd9e43dc356665f683d6a92ef1bf47a9a7f75989b252c88b46fcd1037edce13",
    "852896db71495a177e519f864740721548a7eb90237ccce644a32115a3fde525e19bbe97e4cb9033125c8a8e1ba41566",
    "b0e6298f5b92496c6ab374e83aa4c98d24eff4b71e921dc0b41fa64867000362a745029eeda814228cdab45aab8ce0dc",
    "a2599651d61a875de63a69065359b8f3638eb8cc79365c0bf22891e24212e04a1babcc53eee2aa2574d535cc6bf21b43",
    "5cb619eda1a1667ec5c180554394c6a368cd88d1bd942140149642a954a46c10242d05ee871c933acd3fdb99042f0b37",
    "810203010001",
];

/// An unrelated 2048-bit RSA public key, as hex.
const PUB_B_HEX: &[&str] = &[
    "30820122300d06092a864886f70d01010105000382010f003082010a0282010100941d4b02f647981fc649ee2d2ba566",
    "beb61b6a42e9a4f62a44648836be0b830acbae31314c4106b72fe6239272509331e3ba8801baba4034d1cafe523492d8",
    "7c519f9cd1018b7ff126c5d1cab8f5ed717efd8a06398b66ddb9296cb8185c7e7df2f462d1f43cc2c9b17e00d12a0bea",
    "4bb6a777ff88fff53f356a7a842aa058cf3e038456118d2098dce6dfbc7d5cfa313cc062da05b3aec8f75679fdd2f6ea",
    "b3b6392cc78955dec0cea0389d2563f9bdf28765fd604137522e0abf9f280ab9e8eb2da0ef66d49a4524d35fc9b1c504",
    "b559a8e45be51afee7695227a5e3764e52df635dbe67790112195041b4a873b516ca87d6da1466078c4f354e5fb2c205",
    "350203010001",
];

/// The signature block that `KEY_A_HEX` gives the test JAR, as hex.
const SIG_A_HEX: &[&str] = &[
    "331dd3ce7353ec83fb6cdaebc147e973d474258473be1120ecd91ecff8a558947670643bab7e057a5c1d9649b2fd991c",
    "2c000a587360b6d3be630fcefaa7a71aca1c5a5a28c8fc43fbd803a1f889033acf8ef2c44f021026cbf09d759be20474",
    "81493c8fe95ee09e4b347e34a8afd1957f1ba90b4046141933afb47f9865e530843147aca154b29475575713129c64b7",
    "89fa61c0dbc8adebfaf1fc828ba3f0c6bf38c2e7fb511502882fb1fc2ee966bd1ee882bb936e0d8d8fe347a91a45e581",
    "c99549d91a528d1dae0786b13234f02144e4e13fa4bbff511bf305edf65b91cf1009c821975c1bfffdbfd1e9fac46b41",
    "46a95c348e6046442c9ddec258dacc2a",
];
