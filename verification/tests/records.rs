use totp_store::error::ErrorKind;
use totp_store::otp::Algo;
use totp_store::types::{TotpRecord, TotpRecordDict};

fn record(secret: &[u8]) -> TotpRecord {
    TotpRecord {
        secret: secret.to_vec(),
        algo: Algo::SHA1,
        digits: 6,
        step: 30,
        issuer: None,
        username: None,
    }
}

#[test]
fn schema_defaulting() {
    let rec = TotpRecord::from_parts(Some(vec![1, 2, 3]), None, None, None, None, None)
        .expect("secret given, record expected");
    assert_eq!(rec.secret, vec![1, 2, 3]);
    assert_eq!(rec.algo, Algo::SHA1);
    assert_eq!(rec.digits, 6);
    assert_eq!(rec.step, 30);
    assert_eq!(rec.issuer, None);
    assert_eq!(rec.username, None);
}

#[test]
fn schema_explicit_fields_kept() {
    let rec = TotpRecord::from_parts(
        Some(vec![9]),
        Some(Algo::SHA512),
        Some(8),
        Some(60),
        Some("issuer co".to_owned()),
        Some("user".to_owned()),
    )
    .unwrap();
    assert_eq!(rec.algo, Algo::SHA512);
    assert_eq!(rec.digits, 8);
    assert_eq!(rec.step, 60);
    assert_eq!(rec.issuer.as_deref(), Some("issuer co"));
    assert_eq!(rec.username.as_deref(), Some("user"));
}

#[test]
fn missing_secret_fails_parsing() {
    let rec = TotpRecord::from_parts(None, Some(Algo::SHA1), Some(6), Some(30), None, None);
    assert!(rec.is_none());
}

#[test]
fn dict_insert_get_remove() {
    let mut dict = TotpRecordDict::new();
    assert_eq!(dict.len(), 0);
    dict.insert("gitlab".to_owned(), record(b"a"));
    dict.insert("github".to_owned(), record(b"b"));
    assert_eq!(dict.len(), 2);
    assert_eq!(dict.get(&"gitlab".to_owned()).unwrap().secret, b"a".to_vec());
    assert_eq!(dict.get(&"github".to_owned()).unwrap().secret, b"b".to_vec());
    assert!(dict.get(&"gitea".to_owned()).is_none());
    // inserting under a held name replaces the record
    dict.insert("gitlab".to_owned(), record(b"c"));
    assert_eq!(dict.len(), 2);
    assert_eq!(dict.get(&"gitlab".to_owned()).unwrap().secret, b"c".to_vec());
    let removed = dict.remove(&"gitlab".to_owned()).unwrap();
    assert_eq!(removed.secret, b"c".to_vec());
    assert!(dict.get(&"gitlab".to_owned()).is_none());
    assert_eq!(dict.len(), 1);
}

#[test]
fn drop_record_missing_name() {
    let mut dict = TotpRecordDict::new();
    dict.insert("kept".to_owned(), record(b"a"));
    let err = dict.drop_record(&"missing".to_owned()).unwrap_err();
    assert_eq!(err.kind, ErrorKind::InvalidArgument);
    assert_eq!(
        err.message.as_deref(),
        Some("given name does not exist in file. \"missing\"")
    );
    assert_eq!(dict.len(), 1);
    let dropped = dict.drop_record(&"kept".to_owned()).unwrap();
    assert_eq!(dropped.secret, b"a".to_vec());
    assert_eq!(dict.len(), 0);
}

#[test]
fn rename_record_moves_value() {
    let mut dict = TotpRecordDict::new();
    dict.insert("old name".to_owned(), record(b"s"));
    dict.rename_record(&"old name".to_owned(), "new name".to_owned()).unwrap();
    assert!(dict.get(&"old name".to_owned()).is_none());
    assert_eq!(dict.get(&"new name".to_owned()).unwrap().secret, b"s".to_vec());
    let err = dict.rename_record(&"old name".to_owned(), "other".to_owned()).unwrap_err();
    assert_eq!(err.kind, ErrorKind::InvalidArgument);
}

#[test]
fn edit_record_updates_only_given_fields() {
    let mut dict = TotpRecordDict::new();
    dict.insert("acct".to_owned(), record(b"s"));
    dict.edit_record(
        &"acct".to_owned(),
        None,
        Some(Algo::SHA256),
        Some(7),
        None,
        Some("issuer".to_owned()),
        None,
    )
    .unwrap();
    let rec = dict.get(&"acct".to_owned()).unwrap();
    assert_eq!(rec.secret, b"s".to_vec());
    assert_eq!(rec.algo, Algo::SHA256);
    assert_eq!(rec.digits, 7);
    assert_eq!(rec.step, 30);
    assert_eq!(rec.issuer.as_deref(), Some("issuer"));
    assert_eq!(rec.username, None);
    let err = dict
        .edit_record(&"other".to_owned(), None, None, None, None, None, None)
        .unwrap_err();
    assert_eq!(err.kind, ErrorKind::InvalidArgument);
}

#[test]
fn apply_edits_in_place() {
    let mut rec = record(b"s");
    rec.apply_edits(Some(b"t".to_vec()), None, None, Some(45), None, Some("user".to_owned()));
    assert_eq!(rec.secret, b"t".to_vec());
    assert_eq!(rec.algo, Algo::SHA1);
    assert_eq!(rec.digits, 6);
    assert_eq!(rec.step, 45);
    assert_eq!(rec.issuer, None);
    assert_eq!(rec.username.as_deref(), Some("user"));
}

#[test]
fn take_records_hands_back_the_dict() {
    let mut dict = TotpRecordDict::new();
    dict.insert("a".to_owned(), record(b"x"));
    let file = totp_store::types::TotpFile {
        path: "records.totp".to_owned(),
        file_type: totp_store::types::TotpFileType::TOTP,
        records: dict,
        key: None,
    };
    let records = file.take_records();
    assert_eq!(records.len(), 1);
}
