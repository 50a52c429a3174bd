use base64::Engine as _;
use hmac::Mac as _;

use dailytxt_decrypt::archive::{
    decrypt_file, decrypt_file_content, decrypt_single_file, join_path, log_path, single_month_path,
    stored_file_name, two_digit_month,
};
use dailytxt_decrypt::config::{parse_u32, Config};
use dailytxt_decrypt::crypto::{decrypt_by_key, decrypt_text, derive_key};
use dailytxt_decrypt::document::{parse_month, parse_registry, DocumentError, Json};
use dailytxt_decrypt::journal::{decrypt_month, DayEntry, DecryptedDay, DecryptedFile, FileRef};
use dailytxt_decrypt::registry::{
    find_user, get_user_id_and_encryption_key, password_valid, AuthError, BackupCode, UserEntry,
};
use dailytxt_decrypt::render::{is_blank_text, render_month};

const VECTOR_KEY: &str = "cw_0x689RpI-jtRR7oE8h_eQsKImvJapLeSbXpwF4e4=";
const VECTOR_TOKEN: &str =
    "gAAAAAAdwJ6wAAECAwQFBgcICQoLDA0ODy021cpGVWKZ_eEwCGM4BLLF_5CV9dOPmrhuVUPgJobwOz7JcbmrR64jVmpU4IwqDA==";
const OTHER_KEY: &str = "AAECAwQFBgcICQoLDA0ODxAREhMUFRYXGBkaGxwdHh8=";
const JOURNAL_KEY: &str = "ZmZmZmZmZmZmZmZmZmZmZmZmZmZmZmZmZmZmZmZmZmY=";

fn record(salt: &str, secret: &str) -> String {
    let mut mac = hmac::Hmac::<sha2::Sha256>::new_from_slice(salt.as_bytes()).unwrap();
    mac.update(secret.as_bytes());
    format!("${}${:x}", salt, mac.finalize().into_bytes())
}

fn encrypt(key: &str, data: &str) -> String {
    fernet::Fernet::new(key).unwrap().encrypt(data.as_bytes())
}

fn b64(data: &[u8]) -> String {
    base64::engine::general_purpose::URL_SAFE.encode(data)
}

fn user(name: &str, password: &str, codes: Vec<BackupCode>) -> UserEntry {
    let salt = b64(b"main-salt-bytes!");
    let key = derive_key(password, b"main-salt-bytes!");
    UserEntry {
        username: name.to_string(),
        user_id: format!("id-{}", name),
        password: record("s1", password),
        salt,
        enc_enc_key: encrypt(&key, JOURNAL_KEY),
        backup_codes: codes,
    }
}

fn backup(code: &str, password: &str) -> BackupCode {
    let key = derive_key(code, b"backup-salt");
    BackupCode {
        password: record("bs", code),
        salt: b64(b"backup-salt"),
        enc_orig_password: encrypt(&key, password),
    }
}

fn config(single: bool) -> Config {
    Config {
        help: false,
        user: "alice".to_string(),
        password: "pw".to_string(),
        all: false,
        to_single_file: single,
        month: 3,
        year: 2024,
        from_path: "/src".to_string(),
        to_path: "/out".to_string(),
    }
}

fn day(n: u8, text: &str, files: Vec<(&str, &str)>) -> DecryptedDay {
    DecryptedDay {
        day: n,
        text: text.to_string(),
        files: files
            .into_iter()
            .map(|(f, u)| DecryptedFile { filename: f.to_string(), uuid_filename: u.to_string() })
            .collect(),
    }
}

fn jstr(s: &str) -> Json {
    Json::Str(s.to_string())
}

fn jnum(n: u64) -> Json {
    Json::Number(true, n, 0)
}

fn jobj(fields: Vec<(&str, Json)>) -> Json {
    Json::Object(fields.into_iter().map(|(k, v)| (k.to_string(), v)).collect())
}

#[test]
fn derive_key_is_deterministic() {
    let a = derive_key("secret", b"salt");
    let b = derive_key("secret", b"salt");
    assert_eq!(a, b);
    assert_eq!(a.len(), 44);
    assert_ne!(a, derive_key("secret", b"pepper"));
    assert_ne!(a, derive_key("secreT", b"salt"));
    assert!(fernet::Fernet::new(&a).is_some());
}

#[test]
fn token_round_trip_on_known_vector() {
    assert_eq!(decrypt_by_key(VECTOR_KEY, VECTOR_TOKEN).unwrap(), b"hello".to_vec());
    assert_eq!(decrypt_text(VECTOR_KEY, VECTOR_TOKEN), Some("hello".to_string()));
}

#[test]
fn token_with_wrong_key_fails() {
    assert!(decrypt_by_key(OTHER_KEY, VECTOR_TOKEN).is_err());
    assert!(decrypt_by_key("not a key", VECTOR_TOKEN).is_err());
    assert!(decrypt_by_key(VECTOR_KEY, "garbage").is_err());
    assert_eq!(decrypt_text(OTHER_KEY, VECTOR_TOKEN), None);
}

#[test]
fn password_record_checks() {
    let rec = record("s1", "pw");
    assert!(password_valid(&rec, "pw"));
    assert!(!password_valid(&rec, "pw2"));
    assert!(!password_valid("$s1", "pw"));
    assert!(!password_valid("", "pw"));
    assert!(password_valid(&format!("{}$trailing", rec), "pw"));
}

#[test]
fn first_user_with_name_wins() {
    let mut a = user("alice", "pw", vec![]);
    a.user_id = "first".to_string();
    let mut b = a.clone();
    b.user_id = "second".to_string();
    let reg = vec![user("bob", "x", vec![]), a, b];
    assert_eq!(find_user(&reg, "alice"), Some(1));
    assert_eq!(find_user(&reg, "carol"), None);
}

#[test]
fn resolve_with_password() {
    let reg = vec![user("alice", "pw", vec![])];
    let (id, key) = get_user_id_and_encryption_key("alice", "pw", &reg).unwrap();
    assert_eq!(id, "id-alice");
    assert_eq!(key, JOURNAL_KEY);
}

#[test]
fn resolve_unknown_user() {
    let reg = vec![user("alice", "pw", vec![])];
    assert_eq!(get_user_id_and_encryption_key("bob", "pw", &reg), Err(AuthError::UserNotFound));
}

#[test]
fn resolve_wrong_secret_without_backup_codes() {
    let reg = vec![user("alice", "pw", vec![])];
    assert_eq!(get_user_id_and_encryption_key("alice", "nope", &reg), Err(AuthError::WrongSecret));
}

#[test]
fn resolve_with_backup_code_gives_same_key() {
    let reg = vec![user("alice", "pw", vec![backup("other-code", "pw"), backup("code-1", "pw")])];
    let by_code = get_user_id_and_encryption_key("alice", "code-1", &reg).unwrap();
    let by_password = get_user_id_and_encryption_key("alice", "pw", &reg).unwrap();
    assert_eq!(by_code, by_password);
    assert_eq!(by_code.1, JOURNAL_KEY);
    assert_eq!(get_user_id_and_encryption_key("alice", "code-2", &reg), Err(AuthError::WrongSecret));
}

#[test]
fn decrypt_month_orders_days_and_isolates_failures() {
    let days = vec![
        DayEntry { day: 5, text: Some(encrypt(JOURNAL_KEY, "five")), files: vec![] },
        DayEntry { day: 1, text: Some(encrypt(JOURNAL_KEY, "one")), files: vec![] },
        DayEntry { day: 3, text: Some(encrypt(OTHER_KEY, "three")), files: vec![] },
        DayEntry {
            day: 2,
            text: None,
            files: vec![FileRef { enc_filename: encrypt(JOURNAL_KEY, "a.png"), uuid_filename: "u1".to_string() }],
        },
    ];
    let out = decrypt_month(JOURNAL_KEY, &days);
    let order: Vec<u8> = out.iter().map(|d| d.day).collect();
    assert_eq!(order, vec![1, 2, 3, 5]);
    assert_eq!(out[0].text, "one");
    assert_eq!(out[1].text, "");
    assert_eq!(out[1].files[0].filename, "a.png");
    assert_eq!(out[1].files[0].uuid_filename, "u1");
    assert_eq!(out[2].text, "Error decrypting text - Sorry!");
    assert_eq!(out[3].text, "five");
}

#[test]
fn decrypt_month_keeps_duplicate_days_in_order() {
    let days = vec![
        DayEntry { day: 4, text: Some(encrypt(JOURNAL_KEY, "b")), files: vec![] },
        DayEntry { day: 2, text: Some(encrypt(JOURNAL_KEY, "x")), files: vec![] },
        DayEntry { day: 4, text: Some(encrypt(JOURNAL_KEY, "c")), files: vec![] },
    ];
    let out = decrypt_month(JOURNAL_KEY, &days);
    let texts: Vec<&str> = out.iter().map(|d| d.text.as_str()).collect();
    assert_eq!(texts, vec!["x", "b", "c"]);
}

#[test]
fn bad_filename_gets_placeholder() {
    let days = vec![DayEntry {
        day: 9,
        text: Some(String::new()),
        files: vec![FileRef { enc_filename: "broken".to_string(), uuid_filename: "u9".to_string() }],
    }];
    let out = decrypt_month(JOURNAL_KEY, &days);
    assert_eq!(out[0].files[0].filename, "Error decrypting file - Sorry!");
    assert_eq!(out[0].text, "");
}

#[test]
fn render_skips_blank_days() {
    let days = vec![
        day(1, "  \n\t", vec![]),
        day(2, "hello", vec![]),
        day(12, " ", vec![("a.png", "u1"), ("b.txt", "u2")]),
    ];
    let text = render_month("2024", "03", &days);
    assert_eq!(
        text,
        "-----------\n2024-03-2:\n-----------\nhello\n\n\n\
         -----------\n2024-03-12:\n-----------\nFiles:\na.png (with uuid: u1)\nb.txt (with uuid: u2)\n\n\n"
    );
    assert_eq!(render_month("2024", "03", &vec![day(7, "", vec![])]), "");
}

#[test]
fn blank_text_detection() {
    assert!(is_blank_text(""));
    assert!(is_blank_text(" \t\r\n\u{3000}"));
    assert!(!is_blank_text(" a "));
}

#[test]
fn single_file_mode_uses_one_log() {
    let c = config(true);
    assert_eq!(log_path(&c, "u", "2024", "03"), "/out/u/logs.txt");
    assert_eq!(log_path(&c, "u", "2023", "11"), "/out/u/logs.txt");
}

#[test]
fn month_mode_uses_one_log_per_month() {
    let c = config(false);
    assert_eq!(log_path(&c, "u", "2024", "03"), "/out/u/2024/03.txt");
    assert_eq!(log_path(&c, "u", "2024", "04"), "/out/u/2024/04.txt");
}

#[test]
fn month_paths() {
    assert_eq!(two_digit_month(3), "03");
    assert_eq!(two_digit_month(11), "11");
    assert_eq!(join_path("/a/", "b"), "/a/b");
    assert_eq!(join_path("/a", "b"), "/a/b");
    assert_eq!(single_month_path(&config(false), "uid"), "/src/uid/2024/03.json");
}

#[test]
fn stored_names() {
    assert_eq!(stored_file_name("photo.png", "u1"), "photo_u1.png");
    assert_eq!(stored_file_name("a.tar.gz", "u2"), "a.tar_u2.gz");
    assert_eq!(stored_file_name("dir/x.txt", "u3"), "x_u3.txt");
    assert_eq!(stored_file_name(".hidden", "u4"), ".hidden_u4");
    assert_eq!(stored_file_name("README", "u5"), "README_u5");
}

#[test]
fn file_content_decrypts_or_gets_placeholder() {
    let c = config(false);
    let good = decrypt_file(&c, "uid", JOURNAL_KEY, "pic.png", "u1", &encrypt(JOURNAL_KEY, "data"));
    assert_eq!(good.path, "/out/uid/files/pic_u1.png");
    assert_eq!(good.content, b"data".to_vec());
    let bad = decrypt_file(&c, "uid", JOURNAL_KEY, "pic.png", "u1", "junk");
    assert_eq!(bad.content, b"Error decrypting file - Sorry!".to_vec());
}

#[test]
fn month_content_lists_files_to_decrypt() {
    let c = config(true);
    let days = vec![DayEntry {
        day: 3,
        text: None,
        files: vec![FileRef { enc_filename: encrypt(JOURNAL_KEY, "a.png"), uuid_filename: "u1".to_string() }],
    }];
    let out = decrypt_file_content(&c, "uid", JOURNAL_KEY, "2024", "03", &days);
    assert_eq!(out.log_path, "/out/uid/logs.txt");
    assert_eq!(out.files.len(), 1);
    assert_eq!(out.files[0].source_path, "/src/files/u1");
    assert_eq!(out.files[0].filename, "a.png");
    assert_eq!(out.files[0].uuid_filename, "u1");
    assert_eq!(out.days.len(), 1);
    assert_eq!(out.text, "-----------\n2024-03-3:\n-----------\nFiles:\na.png (with uuid: u1)\n\n\n");
}

#[test]
fn month_document_parsing() {
    let doc = jobj(vec![(
        "days",
        Json::Array(vec![
            jobj(vec![("day", jnum(5)), ("text", jstr("t5"))]),
            jobj(vec![
                ("day", jnum(1)),
                ("text", Json::Null),
                ("files", Json::Array(vec![jobj(vec![("enc_filename", jstr("e")), ("uuid_filename", jstr("u"))])])),
            ]),
        ]),
    )]);
    let days = parse_month(&doc).unwrap();
    assert_eq!(days.len(), 2);
    assert_eq!(days[0].day, 5);
    assert_eq!(days[0].text, Some("t5".to_string()));
    assert!(days[0].files.is_empty());
    assert_eq!(days[1].text, None);
    assert_eq!(days[1].files[0].enc_filename, "e");
    assert_eq!(days[1].files[0].uuid_filename, "u");
    assert_eq!(parse_month(&Json::Null).unwrap().len(), 0);
    let big = jobj(vec![("days", Json::Array(vec![jobj(vec![("day", jnum(300))])]))]);
    assert_eq!(parse_month(&big).unwrap_err(), DocumentError::BadField);
    let bad_text = jobj(vec![("days", Json::Array(vec![jobj(vec![("day", jnum(1)), ("text", jnum(7))])]))]);
    assert_eq!(parse_month(&bad_text).unwrap_err(), DocumentError::BadField);
    let bad_file = jobj(vec![(
        "days",
        Json::Array(vec![jobj(vec![("day", jnum(1)), ("files", Json::Array(vec![jobj(vec![("enc_filename", jstr("e"))])]))])]),
    )]);
    assert_eq!(parse_month(&bad_file).unwrap_err(), DocumentError::BadField);
}

#[test]
fn end_to_end_single_month() {
    let salt = b64(b"kdf-salt");
    let key = derive_key("pw", b"kdf-salt");
    let t = encrypt(&key, JOURNAL_KEY);
    let registry = jobj(vec![(
        "users",
        Json::Array(vec![jobj(vec![
            ("username", jstr("alice")),
            ("user_id", jstr("7")),
            ("password", Json::Str(record("s1", "pw"))),
            ("salt", Json::Str(salt)),
            ("enc_enc_key", Json::Str(t)),
        ])]),
    )]);
    let users = parse_registry(&registry).unwrap();
    let (user_id, journal_key) = get_user_id_and_encryption_key("alice", "pw", &users).unwrap();
    assert_eq!(user_id, "7");
    let e = encrypt(&journal_key, "Dear diary");
    let month = jobj(vec![("days", Json::Array(vec![jobj(vec![("day", jnum(3)), ("text", Json::Str(e))])]))]);
    let days = parse_month(&month).unwrap();
    let c = config(false);
    assert_eq!(single_month_path(&c, &user_id), "/src/7/2024/03.json");
    let out = decrypt_single_file(&c, &user_id, &journal_key, &days);
    assert_eq!(out.log_path, "/out/7/2024/03.txt");
    assert!(out.text.starts_with("-----------\n2024-03-3:\n-----------\nDear diary"));
    assert_eq!(out.text, "-----------\n2024-03-3:\n-----------\nDear diary\n\n\n");
}

fn args(list: &[&str]) -> Vec<String> {
    list.iter().map(|s| s.to_string()).collect()
}

#[test]
fn config_reads_single_month() {
    let c = Config::new(&args(&["bin", "-s", "-m", "3", "-y", "2024", "-u", "alice", "-p", "pw", "/from", "/to"])).unwrap();
    assert!(!c.all);
    assert!(!c.help);
    assert_eq!((c.month, c.year), (3, 2024));
    assert_eq!(c.user, "alice");
    assert_eq!(c.password, "pw");
    assert_eq!(c.from_path, "/from");
    assert_eq!(c.to_path, "/to");
}

#[test]
fn config_reads_all_months() {
    let c = Config::new(&args(&["bin", "-a", "--to-single-file", "-u", "alice", "-p", "pw", "/from", "/to"])).unwrap();
    assert!(c.all);
    assert!(c.to_single_file);
    assert_eq!((c.month, c.year), (0, 0));
}

#[test]
fn config_errors() {
    assert!(Config::new(&args(&["bin", "--help"])).unwrap().help);
    assert_eq!(Config::new(&args(&["bin", "-u", "a"])).err(), Some("Not enough arguments given"));
    assert_eq!(
        Config::new(&args(&["bin", "-s", "-m", "x", "-u", "a", "-p", "b", "/f", "/t"])).err(),
        Some("Month is not a number")
    );
    assert_eq!(
        Config::new(&args(&["bin", "-s", "-m", "3", "-u", "a", "-p", "b", "/f", "/t"])).err(),
        Some("No month or year given")
    );
    assert_eq!(
        Config::new(&args(&["bin", "-a", "-m", "3", "-u", "a", "-p", "b", "/f", "/t"])).err(),
        Some("Month or year given but not needed, since -a or --all is set")
    );
    assert_eq!(
        Config::new(&args(&["bin", "-x", "-u", "a", "-p", "b", "/f", "/t"])).err(),
        Some("Unknown argument")
    );
    assert_eq!(
        Config::new(&args(&["bin", "-a", "-u", "a", "-p", "", "/f", "/t"])).err(),
        Some("No user or password given")
    );
}

#[test]
fn number_parsing() {
    assert_eq!(parse_u32("12"), Some(12));
    assert_eq!(parse_u32("+7"), Some(7));
    assert_eq!(parse_u32("4294967295"), Some(4294967295));
    assert_eq!(parse_u32("4294967296"), None);
    assert_eq!(parse_u32(""), None);
    assert_eq!(parse_u32("+"), None);
    assert_eq!(parse_u32("1a"), None);
    assert_eq!(parse_u32("-1"), None);
}

#[test]
fn non_utf8_plaintext_is_not_text() {
    let token = fernet::Fernet::new(JOURNAL_KEY).unwrap().encrypt(&[0xff, 0xfe]);
    assert_eq!(decrypt_by_key(JOURNAL_KEY, &token).unwrap(), vec![0xff, 0xfe]);
    assert_eq!(decrypt_text(JOURNAL_KEY, &token), None);
}

#[test]
fn registry_document_parsing() {
    let doc = jobj(vec![(
        "users",
        Json::Array(vec![
            jobj(vec![("username", jnum(7)), ("user_id", jstr("x"))]),
            jobj(vec![
                ("username", jstr("bob")),
                ("user_id", jstr("b1")),
                ("password", jstr("$s$h")),
                ("salt", jstr("c2FsdA==")),
                ("enc_enc_key", jstr("k")),
                (
                    "backup_codes",
                    Json::Array(vec![jobj(vec![
                        ("password", jstr("$t$g")),
                        ("salt", jstr("YQ==")),
                        ("enc_orig_password", jstr("o")),
                    ])]),
                ),
            ]),
            jobj(vec![("username", jstr("carol")), ("user_id", jnum(3)), ("backup_codes", Json::Null)]),
        ]),
    )]);
    let users = parse_registry(&doc).unwrap();
    assert_eq!(users.len(), 2);
    assert_eq!(users[0].username, "bob");
    assert_eq!(users[0].password, "$s$h");
    assert_eq!(users[0].backup_codes.len(), 1);
    assert_eq!(users[0].backup_codes[0].enc_orig_password, "o");
    assert_eq!(users[1].user_id, "3");
    assert_eq!(users[1].enc_enc_key, "null");
    assert!(users[1].backup_codes.is_empty());
    let nested = jobj(vec![("users", Json::Array(vec![jobj(vec![("username", jstr("d")), ("salt", Json::Array(vec![]))])]))]);
    assert_eq!(parse_registry(&nested).unwrap_err(), DocumentError::BadField);
    let negative = jobj(vec![("users", Json::Array(vec![jobj(vec![("username", jstr("e")), ("user_id", Json::Number(false, 4, 0))])]))]);
    assert_eq!(parse_registry(&negative).unwrap()[0].user_id, "-4");
}

#[test]
fn config_help_request_is_blank() {
    let c = Config::new(&args(&["prog", "-h"])).unwrap();
    assert!(c.help);
    assert_eq!((c.user.as_str(), c.password.as_str()), ("", ""));
    assert!(!c.all && !c.to_single_file);
    assert_eq!((c.month, c.year), (0, 0));
    assert_eq!((c.from_path.as_str(), c.to_path.as_str()), ("", ""));
}

#[test]
fn config_more_errors() {
    assert_eq!(
        Config::new(&args(&["prog", "-a", "--to-single-file", "-a", "-a", "src", "dst"])).err(),
        Some("No user or password given")
    );
    assert_eq!(
        Config::new(&args(&["prog", "-s", "-m", "x", "-y", "2024", "-u", "a", "-p", "p", "src", "dst"])).err(),
        Some("Month is not a number")
    );
    assert_eq!(
        Config::new(&args(&["prog", "-s", "-m", "3", "-y", "year", "-u", "a", "-p", "p", "src", "dst"])).err(),
        Some("Year is not a number")
    );
    assert_eq!(
        Config::new(&args(&["prog", "-s", "-u", "alice", "-p", "pw", "src", "dst"])).err(),
        Some("No month or year given")
    );
}

#[test]
fn month_files_follow_day_order() {
    let c = config(false);
    let days = vec![
        DayEntry {
            day: 9,
            text: None,
            files: vec![FileRef { enc_filename: encrypt(JOURNAL_KEY, "late.txt"), uuid_filename: "u9".to_string() }],
        },
        DayEntry {
            day: 2,
            text: None,
            files: vec![
                FileRef { enc_filename: encrypt(JOURNAL_KEY, "a.txt"), uuid_filename: "u2a".to_string() },
                FileRef { enc_filename: "broken".to_string(), uuid_filename: "u2b".to_string() },
            ],
        },
    ];
    let out = decrypt_file_content(&c, "uid", JOURNAL_KEY, "2024", "03", &days);
    let names: Vec<(&str, &str)> =
        out.files.iter().map(|f| (f.filename.as_str(), f.uuid_filename.as_str())).collect();
    assert_eq!(names, vec![("a.txt", "u2a"), ("Error decrypting file - Sorry!", "u2b"), ("late.txt", "u9")]);
    assert_eq!(out.days.iter().map(|d| d.day).collect::<Vec<u8>>(), vec![2, 9]);
}
