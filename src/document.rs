//! Reading the archive's JSON documents into the library's types.

use vstd::prelude::*;

use crate::journal::{day_entries_view, file_refs_view, DayEntry, DayEntryView, FileRef, FileRefView};
use crate::registry::{codes_view, users_view, BackupCode, CodeView, UserEntry, UserView};
use crate::render::{decimal_of, push_decimal};

verus! {

/// A JSON value. A number is held as sign, mantissa and decimal exponent:
/// `Number(positive, m, e)` stands for ±m·10^e.
#[derive(Debug)]
pub enum Json {
    Null,
    Bool(bool),
    Number(bool, u64, i16),
    Str(String),
    Array(Vec<Json>),
    Object(Vec<(String, Json)>),
}

/// A document that lacks a field in the form the archive writes it, or that
/// is not JSON at all.
#[derive(Debug, Clone, Copy, PartialEq, Eq)]
pub enum DocumentError {
    NotJson,
    BadField,
}

/// Index of the first entry at or after `i` whose key is `key`, or `es.len()`.
pub open spec fn first_key_from(es: Seq<(String, Json)>, key: Seq<char>, i: int) -> int
    decreases es.len() - i,
{
    if i < 0 || i >= es.len() {
        es.len() as int
    } else if es[i].0@ == key {
        i
    } else {
        first_key_from(es, key, i + 1)
    }
}

/// The member `key` of an object; null when `v` is not an object or has no
/// such member.
pub open spec fn member(v: Json, key: Seq<char>) -> Json {
    match v {
        Json::Object(es) => {
            let k = first_key_from(es@, key, 0);
            if 0 <= k < es@.len() {
                es@[k].1
            } else {
                Json::Null
            }
        },
        _ => Json::Null,
    }
}

/// The members of an array; none when `v` is not an array.
pub open spec fn items(v: Json) -> Seq<Json> {
    match v {
        Json::Array(a) => a@,
        _ => Seq::empty(),
    }
}

/// The text of a string value.
pub open spec fn str_of(v: Json) -> Option<Seq<char>> {
    match v {
        Json::Str(s) => Some(s@),
        _ => None,
    }
}

/// A scalar as text: a string as it is, `null`, `true`, `false`, or a whole
/// number without exponent in decimal. Arrays, objects and other numbers have
/// none.
pub open spec fn text_of(v: Json) -> Option<Seq<char>> {
    match v {
        Json::Str(s) => Some(s@),
        Json::Null => Some("null"@),
        Json::Bool(b) => Some(if b { "true"@ } else { "false"@ }),
        Json::Number(p, m, e) => if e == 0 {
            Some(if p { decimal_of(m as nat) } else { "-"@ + decimal_of(m as nat) })
        } else {
            None
        },
        _ => None,
    }
}

fn member_ref<'a>(v: &'a Json, key: &str) -> (r: Option<&'a Json>)
    ensures
        match r {
            Some(x) => *x == member(*v, key@),
            None => member(*v, key@) == Json::Null,
        },
{
    match v {
        Json::Object(es) => {
            let mut k: usize = 0;
            while k < es.len()
                invariant
                    *v == Json::Object(*es),
                    k <= es@.len(),
                    first_key_from(es@, key@, 0) == first_key_from(es@, key@, k as int),
                decreases es.len() - k,
            {
                if es[k].0 == key.to_owned() {
                    return Some(&es[k].1);
                }
                k = k + 1;
            }
            None
        },
        _ => None,
    }
}

fn items_of(v: Option<&Json>) -> (r: Option<&Vec<Json>>)
    ensures
        match r {
            Some(a) => v matches Some(x) && items(*x) == a@,
            None => v is None || items(*v->0) == Seq::<Json>::empty(),
        },
{
    match v {
        Some(Json::Array(a)) => Some(a),
        _ => None,
    }
}

fn str_value(v: Option<&Json>) -> (r: Option<String>)
    ensures
        match v {
            Some(x) => r matches Some(s) ==> str_of(*x) == Some(s@),
            None => true,
        },
        match v {
            Some(x) => r is None ==> str_of(*x) is None,
            None => r is None,
        },
{
    match v {
        Some(Json::Str(s)) => Some(s.clone()),
        _ => None,
    }
}

fn text_value(v: Option<&Json>) -> (r: Option<String>)
    ensures
        match v {
            Some(x) => match r {
                Some(s) => text_of(*x) == Some(s@),
                None => text_of(*x) is None,
            },
            None => r matches Some(s) && s@ == "null"@,
        },
{
    match v {
        Some(Json::Str(s)) => Some(s.clone()),
        Some(Json::Bool(b)) => Some(if *b { "true".to_owned() } else { "false".to_owned() }),
        Some(Json::Number(p, m, e)) => {
            if *e != 0 {
                return None;
            }
            let mut out = String::new();
            if !*p {
                out.append("-");
            }
            push_decimal(&mut out, *m);
            Some(out)
        },
        Some(Json::Null) | None => Some("null".to_owned()),
        _ => None,
    }
}

/// A backup code member: its three fields as text.
pub open spec fn code_of(m: Json) -> Option<CodeView> {
    match (text_of(member(m, "password"@)), text_of(member(m, "salt"@)), text_of(member(m, "enc_orig_password"@))) {
        (Some(a), Some(b), Some(c)) => Some((a, b, c)),
        _ => None,
    }
}

/// The backup codes of a `backup_codes` array, or `None` when one is malformed.
pub open spec fn codes_of(ms: Seq<Json>) -> Option<Seq<CodeView>>
    decreases ms.len(),
{
    if ms.len() == 0 {
        Some(Seq::empty())
    } else {
        match (codes_of(ms.drop_last()), code_of(ms.last())) {
            (Some(p), Some(c)) => Some(p.push(c)),
            _ => None,
        }
    }
}

/// A user member whose `username` is a string: its fields as text.
pub open spec fn user_of(m: Json) -> Option<UserView> {
    match (
        str_of(member(m, "username"@)),
        text_of(member(m, "user_id"@)),
        text_of(member(m, "password"@)),
        text_of(member(m, "salt"@)),
        text_of(member(m, "enc_enc_key"@)),
        codes_of(items(member(m, "backup_codes"@))),
    ) {
        (Some(a), Some(b), Some(c), Some(d), Some(e), Some(f)) => Some((a, b, c, d, e, f)),
        _ => None,
    }
}

/// The users of a `users` array: members whose `username` is not a string
/// are left out; `None` when a member left in is malformed.
pub open spec fn users_of(ms: Seq<Json>) -> Option<Seq<UserView>>
    decreases ms.len(),
{
    if ms.len() == 0 {
        Some(Seq::empty())
    } else {
        match users_of(ms.drop_last()) {
            Some(p) => if str_of(member(ms.last(), "username"@)) is None {
                Some(p)
            } else {
                match user_of(ms.last()) {
                    Some(u) => Some(p.push(u)),
                    None => None,
                }
            },
            None => None,
        }
    }
}

fn code_entry(m: &Json) -> (r: Option<BackupCode>)
    ensures
        match r {
            Some(c) => code_of(*m) == Some(c@),
            None => code_of(*m) is None,
        },
{
    let password = text_value(member_ref(m, "password"));
    let salt = text_value(member_ref(m, "salt"));
    let enc_orig_password = text_value(member_ref(m, "enc_orig_password"));
    match (password, salt, enc_orig_password) {
        (Some(password), Some(salt), Some(enc_orig_password)) => Some(BackupCode { password, salt, enc_orig_password }),
        _ => None,
    }
}

fn code_entries(ms: &Vec<Json>) -> (r: Option<Vec<BackupCode>>)
    ensures
        match r {
            Some(v) => codes_of(ms@) == Some(codes_view(v@)),
            None => codes_of(ms@) is None,
        },
{
    let mut out: Vec<BackupCode> = Vec::new();
    let mut bad = false;
    let mut i: usize = 0;
    while i < ms.len()
        invariant
            i <= ms@.len(),
            bad ==> codes_of(ms@.take(i as int)) is None,
            !bad ==> codes_of(ms@.take(i as int)) == Some(codes_view(out@)),
        decreases ms.len() - i,
    {
        assert(ms@.take(i + 1).drop_last() =~= ms@.take(i as int));
        if !bad {
            match code_entry(&ms[i]) {
                Some(c) => {
                    let ghost before = out@;
                    out.push(c);
                    assert(codes_view(out@) =~= codes_view(before).push(c@));
                },
                None => {
                    bad = true;
                },
            }
        }
        i = i + 1;
    }
    assert(ms@.take(ms@.len() as int) =~= ms@);
    if bad {
        None
    } else {
        Some(out)
    }
}

fn user_entry(m: &Json) -> (r: Option<UserEntry>)
    ensures
        match r {
            Some(u) => user_of(*m) == Some(u@),
            None => user_of(*m) is None,
        },
{
    let username = str_value(member_ref(m, "username"));
    let user_id = text_value(member_ref(m, "user_id"));
    let password = text_value(member_ref(m, "password"));
    let salt = text_value(member_ref(m, "salt"));
    let enc_enc_key = text_value(member_ref(m, "enc_enc_key"));
    let codes = match items_of(member_ref(m, "backup_codes")) {
        Some(a) => code_entries(a),
        None => {
            let none: Vec<BackupCode> = Vec::new();
            assert(codes_view(none@) =~= Seq::<CodeView>::empty());
            Some(none)
        },
    };
    match (username, user_id, password, salt, enc_enc_key, codes) {
        (Some(username), Some(user_id), Some(password), Some(salt), Some(enc_enc_key), Some(backup_codes)) =>
            Some(UserEntry { username, user_id, password, salt, enc_enc_key, backup_codes }),
        _ => None,
    }
}

/// Reads the user registry: the members of its `users` array, in order, each
/// field as text. A member whose `username` is not a string can match no name
/// and is left out; any other member must hold its fields as scalars.
pub fn parse_registry(doc: &Json) -> (r: Result<Vec<UserEntry>, DocumentError>)
    ensures
        match users_of(items(member(*doc, "users"@))) {
            Some(us) => r matches Ok(v) && users_view(v@) == us,
            None => r == Err::<Vec<UserEntry>, DocumentError>(DocumentError::BadField),
        },
{
    let empty: Vec<Json> = Vec::new();
    let ms = match items_of(member_ref(doc, "users")) {
        Some(a) => a,
        None => &empty,
    };
    assert(ms@ == items(member(*doc, "users"@)));
    let mut out: Vec<UserEntry> = Vec::new();
    let mut bad = false;
    let mut i: usize = 0;
    while i < ms.len()
        invariant
            i <= ms@.len(),
            bad ==> users_of(ms@.take(i as int)) is None,
            !bad ==> users_of(ms@.take(i as int)) == Some(users_view(out@)),
        decreases ms.len() - i,
    {
        assert(ms@.take(i + 1).drop_last() =~= ms@.take(i as int));
        if !bad {
            let m = &ms[i];
            if str_value(member_ref(m, "username")).is_some() {
                match user_entry(m) {
                    Some(u) => {
                        let ghost before = out@;
                        out.push(u);
                        assert(users_view(out@) =~= users_view(before).push(u@));
                    },
                    None => {
                        bad = true;
                    },
                }
            }
        }
        i = i + 1;
    }
    assert(ms@.take(ms@.len() as int) =~= ms@);
    if bad {
        Err(DocumentError::BadField)
    } else {
        Ok(out)
    }
}

/// A day number: a positive-signed whole number without exponent below 256.
pub open spec fn day_number_of(v: Json) -> Option<u8> {
    match v {
        Json::Number(p, m, e) => if p && e == 0 && m <= 255 {
            Some(m as u8)
        } else {
            None
        },
        _ => None,
    }
}

/// A day's text field: absent or null gives no text, a string gives its text.
pub open spec fn text_field_of(v: Json) -> Option<Option<Seq<char>>> {
    match v {
        Json::Null => Some(None),
        Json::Str(s) => Some(Some(s@)),
        _ => None,
    }
}

/// A file member: its two string fields.
pub open spec fn file_of(m: Json) -> Option<FileRefView> {
    match (str_of(member(m, "enc_filename"@)), str_of(member(m, "uuid_filename"@))) {
        (Some(a), Some(b)) => Some((a, b)),
        _ => None,
    }
}

/// The file references of a `files` array, or `None` when one is malformed.
pub open spec fn files_of_json(ms: Seq<Json>) -> Option<Seq<FileRefView>>
    decreases ms.len(),
{
    if ms.len() == 0 {
        Some(Seq::empty())
    } else {
        match (files_of_json(ms.drop_last()), file_of(ms.last())) {
            (Some(p), Some(f)) => Some(p.push(f)),
            _ => None,
        }
    }
}

/// A day member: its number, text and files.
pub open spec fn day_of(m: Json) -> Option<DayEntryView> {
    match (day_number_of(member(m, "day"@)), text_field_of(member(m, "text"@)), files_of_json(items(member(m, "files"@)))) {
        (Some(d), Some(t), Some(f)) => Some((d, t, f)),
        _ => None,
    }
}

/// The days of a `days` array, or `None` when one is malformed.
pub open spec fn days_of(ms: Seq<Json>) -> Option<Seq<DayEntryView>>
    decreases ms.len(),
{
    if ms.len() == 0 {
        Some(Seq::empty())
    } else {
        match (days_of(ms.drop_last()), day_of(ms.last())) {
            (Some(p), Some(d)) => Some(p.push(d)),
            _ => None,
        }
    }
}

fn file_entry(m: &Json) -> (r: Option<FileRef>)
    ensures
        match r {
            Some(f) => file_of(*m) == Some(f@),
            None => file_of(*m) is None,
        },
{
    let enc_filename = str_value(member_ref(m, "enc_filename"));
    let uuid_filename = str_value(member_ref(m, "uuid_filename"));
    match (enc_filename, uuid_filename) {
        (Some(enc_filename), Some(uuid_filename)) => Some(FileRef { enc_filename, uuid_filename }),
        _ => None,
    }
}

fn file_entries(ms: &Vec<Json>) -> (r: Option<Vec<FileRef>>)
    ensures
        match r {
            Some(v) => files_of_json(ms@) == Some(file_refs_view(v@)),
            None => files_of_json(ms@) is None,
        },
{
    let mut out: Vec<FileRef> = Vec::new();
    let mut bad = false;
    let mut i: usize = 0;
    while i < ms.len()
        invariant
            i <= ms@.len(),
            bad ==> files_of_json(ms@.take(i as int)) is None,
            !bad ==> files_of_json(ms@.take(i as int)) == Some(file_refs_view(out@)),
        decreases ms.len() - i,
    {
        assert(ms@.take(i + 1).drop_last() =~= ms@.take(i as int));
        if !bad {
            match file_entry(&ms[i]) {
                Some(f) => {
                    let ghost before = out@;
                    out.push(f);
                    assert(file_refs_view(out@) =~= file_refs_view(before).push(f@));
                },
                None => {
                    bad = true;
                },
            }
        }
        i = i + 1;
    }
    assert(ms@.take(ms@.len() as int) =~= ms@);
    if bad {
        None
    } else {
        Some(out)
    }
}

fn day_entry(m: &Json) -> (r: Option<DayEntry>)
    ensures
        match r {
            Some(d) => day_of(*m) == Some(d@),
            None => day_of(*m) is None,
        },
{
    let day: Option<u8> = match member_ref(m, "day") {
        Some(Json::Number(p, n, e)) => {
            if *p && *e == 0 && *n <= 255 {
                Some(*n as u8)
            } else {
                None
            }
        },
        _ => None,
    };
    let text: Option<Option<String>> = match member_ref(m, "text") {
        Some(Json::Str(s)) => Some(Some(s.clone())),
        Some(Json::Null) | None => Some(None),
        _ => None,
    };
    let files = match items_of(member_ref(m, "files")) {
        Some(a) => file_entries(a),
        None => {
            let none: Vec<FileRef> = Vec::new();
            assert(file_refs_view(none@) =~= Seq::<FileRefView>::empty());
            Some(none)
        },
    };
    match (day, text, files) {
        (Some(day), Some(text), Some(files)) => Some(DayEntry { day, text, files }),
        _ => None,
    }
}

/// Reads a month document: the members of its `days` array, in order. Each
/// needs a `day` that is a whole number from 0 to 255 written without
/// fraction or exponent, a `text` that is a string, null or absent, and
/// `files` whose members hold string `enc_filename` and `uuid_filename`.
pub fn parse_month(doc: &Json) -> (r: Result<Vec<DayEntry>, DocumentError>)
    ensures
        match days_of(items(member(*doc, "days"@))) {
            Some(ds) => r matches Ok(v) && day_entries_view(v@) == ds,
            None => r == Err::<Vec<DayEntry>, DocumentError>(DocumentError::BadField),
        },
{
    let empty: Vec<Json> = Vec::new();
    let ms = match items_of(member_ref(doc, "days")) {
        Some(a) => a,
        None => &empty,
    };
    assert(ms@ == items(member(*doc, "days"@)));
    let mut out: Vec<DayEntry> = Vec::new();
    let mut bad = false;
    let mut i: usize = 0;
    while i < ms.len()
        invariant
            i <= ms@.len(),
            bad ==> days_of(ms@.take(i as int)) is None,
            !bad ==> days_of(ms@.take(i as int)) == Some(day_entries_view(out@)),
        decreases ms.len() - i,
    {
        assert(ms@.take(i + 1).drop_last() =~= ms@.take(i as int));
        if !bad {
            match day_entry(&ms[i]) {
                Some(d) => {
                    let ghost before = out@;
                    out.push(d);
                    assert(day_entries_view(out@) =~= day_entries_view(before).push(d@));
                },
                None => {
                    bad = true;
                },
            }
        }
        i = i + 1;
    }
    assert(ms@.take(ms@.len() as int) =~= ms@);
    if bad {
        Err(DocumentError::BadField)
    } else {
        Ok(out)
    }
}

} // verus!
