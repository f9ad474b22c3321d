use beacon::error::ApiError;
use beacon::filedb::{download_url, FileDb};
use beacon::filestore::{FileId, FileStore};
use beacon::session::AuthContext;

const T0: i64 = 1_700_000_000_000;
const ALICE: u128 = 1;
const BOB: u128 = 2;

fn alice() -> AuthContext {
    AuthContext {
        user_id: ALICE,
        username: String::from("alice"),
        is_admin: false,
    }
}

fn bob() -> AuthContext {
    AuthContext {
        user_id: BOB,
        username: String::from("bob"),
        is_admin: false,
    }
}

fn admin() -> AuthContext {
    AuthContext {
        user_id: 99,
        username: String::from("root"),
        is_admin: true,
    }
}

#[test]
fn store_round_trip_is_byte_identical() {
    let mut store = FileStore::new();
    let id = FileId::from_raw(0xfeed);
    let bytes = vec![1u8, 2, 3, 200, 255, 0, 42];
    let written = store.put(id, bytes.clone());
    assert_eq!(written, bytes.len() as u64);
    assert_eq!(store.get(id), Some(&bytes));
    assert!(store.get(FileId::from_raw(0xbeef)).is_none());
}

#[test]
fn store_remove_is_final() {
    let mut store = FileStore::new();
    let id = FileId::from_raw(7);
    store.put(id, vec![9u8; 16]);
    store.remove(id).expect("present blob");
    assert!(store.get(id).is_none());
    assert!(store.remove(id).is_err());
}

#[test]
fn created_files_read_back_through_the_service() {
    let mut db = FileDb::new();
    let content = vec![5u8; 1000];
    let rec = db
        .create(ALICE, String::from("report.pdf"), content.clone(), T0)
        .expect("creation succeeds");
    assert_eq!(rec.file_size, 1000);
    assert_eq!(rec.file_name, "report.pdf");
    assert_eq!(rec.upload_date, T0);
    assert_eq!(rec.uploader_id, ALICE);

    let info = db.file_info(rec.file_id).expect("row exists");
    assert_eq!(info.file_size, 1000);

    assert_eq!(db.content(rec.file_id, "report.pdf"), Some(&content));
    // A name mismatch is indistinguishable from a missing file.
    assert!(db.content(rec.file_id, "other.pdf").is_none());
    assert!(db.info_named(rec.file_id, "other.pdf").is_none());
}

#[test]
fn deletion_removes_row_and_blob() {
    let mut db = FileDb::new();
    let rec = db
        .create(ALICE, String::from("a.txt"), vec![1u8, 2, 3], T0)
        .expect("creation succeeds");

    db.delete(&alice(), rec.file_id, "a.txt")
        .expect("the uploader may delete");
    assert!(db.file_info(rec.file_id).is_none());
    assert!(db.content(rec.file_id, "a.txt").is_none());
    let again = db.delete(&alice(), rec.file_id, "a.txt");
    assert_eq!(again.unwrap_err(), ApiError::NotFound);
}

#[test]
fn deletion_is_for_the_uploader_or_an_administrator() {
    let mut db = FileDb::new();
    let rec = db
        .create(ALICE, String::from("a.txt"), vec![1u8, 2, 3], T0)
        .expect("creation succeeds");

    let refused = db.delete(&bob(), rec.file_id, "a.txt");
    assert_eq!(refused.unwrap_err(), ApiError::Unauthenticated);
    assert!(db.file_info(rec.file_id).is_some());

    db.delete(&admin(), rec.file_id, "a.txt")
        .expect("an administrator may delete");
    assert!(db.file_info(rec.file_id).is_none());
}

#[test]
fn listings_and_sizes_are_per_uploader() {
    let mut db = FileDb::new();
    db.create(ALICE, String::from("a.txt"), vec![0u8; 10], T0)
        .expect("create");
    db.create(BOB, String::from("b.txt"), vec![0u8; 20], T0)
        .expect("create");
    db.create(ALICE, String::from("c.txt"), vec![0u8; 30], T0)
        .expect("create");

    let mine = db.files_of(&alice(), ALICE).expect("own listing");
    assert_eq!(mine.len(), 2);
    assert!(mine.iter().all(|r| r.uploader_id == ALICE));

    let spying = db.files_of(&bob(), ALICE);
    assert_eq!(spying.unwrap_err(), ApiError::Unauthenticated);

    assert_eq!(db.total_size_of(ALICE), 40);
    assert_eq!(db.total_size_of(BOB), 20);
    assert_eq!(db.total_size_of(99), 0);
}

#[test]
fn identifiers_render_and_parse_as_lowercase_hex() {
    let id = FileId::from_raw(0xdead_beef);
    assert_eq!(id.to_hex(), "deadbeef");
    let back = FileId::parse_hex("deadbeef").expect("valid hex");
    assert_eq!(back.raw(), 0xdead_beef);
    assert_eq!(FileId::parse_hex("DEADBEEF").expect("either case").raw(), 0xdead_beef);
    assert!(FileId::parse_hex("nope").is_none());
}

#[test]
fn download_urls_embed_id_and_name() {
    let url = download_url("https://example.test", FileId::from_raw(0x1a2b), "cat.png");
    assert_eq!(url, "https://example.test/files/1a2b/cat.png");
}
