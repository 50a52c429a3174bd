//! Where the archive's documents are found and where the decrypted output goes.

use vstd::prelude::*;
use vstd::string::{StrSliceExecFns, StringExecFns, StringSliceAdditionalSpecFns};

use crate::config::Config;
use crate::crypto::{decrypt_by_key, fernet_open_of};
use crate::journal::{by_day, day_result, days_view, decrypt_month, DayEntry, DayView, DecryptedDay, DecryptedFile};
use crate::render::{decimal_of, push_decimal, render_days, render_month};

verus! {

/// `base` joined with `rest` by a `'/'`, unless `base` already ends in one.
pub open spec fn joined(base: Seq<char>, rest: Seq<char>) -> Seq<char> {
    if base.len() > 0 && base.last() == '/' {
        base + rest
    } else {
        base + "/"@ + rest
    }
}

/// Joins `base` and `rest` with a single separating `'/'` after `base`.
pub fn join_path(base: &str, rest: &str) -> (r: String)
    ensures
        r@ == joined(base@, rest@),
{
    let n = base.unicode_len();
    let mut r = base.to_owned();
    if n == 0 || base.get_char(n - 1) != '/' {
        r.append("/");
    }
    r.append(rest);
    r
}

/// The two-digit form of a month number: one digit gets a leading zero.
pub open spec fn month_text(m: u32) -> Seq<char> {
    if decimal_of(m as nat).len() == 1 {
        "0"@ + decimal_of(m as nat)
    } else {
        decimal_of(m as nat)
    }
}

/// Decimal text of `n`.
pub fn decimal(n: u64) -> (r: String)
    ensures
        r@ == decimal_of(n as nat),
{
    let mut r = String::new();
    push_decimal(&mut r, n);
    assert(r@ =~= decimal_of(n as nat));
    r
}

/// The month number of `m` as two digits, `"03"` for 3.
pub fn two_digit_month(m: u32) -> (r: String)
    ensures
        r@ == month_text(m),
{
    let d = decimal(m as u64);
    if d.unicode_len() == 1 {
        let mut r = String::new();
        r.append("0");
        r.append(d.as_str());
        r
    } else {
        d
    }
}

/// The month document of `year`/`month` for `user_id` under `from`.
pub open spec fn month_document(from: Seq<char>, user_id: Seq<char>, year: Seq<char>, month: Seq<char>) -> Seq<char> {
    joined(from, user_id + "/"@ + year + "/"@ + month + ".json"@)
}

/// Path of the month document that single-month mode reads.
pub fn single_month_path(config: &Config, user_id: &str) -> (r: String)
    ensures
        r@ == month_document(config.from_path@, user_id@, decimal_of(config.year as nat), month_text(config.month)),
{
    let year = decimal(config.year as u64);
    let month = two_digit_month(config.month);
    let mut rest = user_id.to_owned();
    rest.append("/");
    rest.append(year.as_str());
    rest.append("/");
    rest.append(month.as_str());
    rest.append(".json");
    join_path(config.from_path.as_str(), rest.as_str())
}

/// The log a month is appended to: one per user in single-file mode,
/// otherwise one per month under its year.
pub open spec fn log_file(to: Seq<char>, single: bool, user_id: Seq<char>, year: Seq<char>, month: Seq<char>) -> Seq<char> {
    if single {
        to + "/"@ + user_id + "/logs.txt"@
    } else {
        to + "/"@ + user_id + "/"@ + year + "/"@ + month + ".txt"@
    }
}

/// Path of the log that the month `year`/`month` is appended to.
pub fn log_path(config: &Config, user_id: &str, year: &str, month: &str) -> (r: String)
    ensures
        r@ == log_file(config.to_path@, config.to_single_file, user_id@, year@, month@),
{
    let mut r = config.to_path.clone();
    r.append("/");
    r.append(user_id);
    if config.to_single_file {
        r.append("/logs.txt");
    } else {
        r.append("/");
        r.append(year);
        r.append("/");
        r.append(month);
        r.append(".txt");
    }
    r
}

/// In single-file mode every month of a user goes to the same log.
pub proof fn single_file_mode_shares_log(to: Seq<char>, user_id: Seq<char>, y1: Seq<char>, m1: Seq<char>, y2: Seq<char>, m2: Seq<char>)
    ensures
        log_file(to, true, user_id, y1, m1) == log_file(to, true, user_id, y2, m2),
{
}

/// Otherwise two different months of a year go to two different logs.
pub proof fn month_mode_separates_logs(to: Seq<char>, user_id: Seq<char>, year: Seq<char>, m1: Seq<char>, m2: Seq<char>)
    requires
        m1 != m2,
    ensures
        log_file(to, false, user_id, year, m1) != log_file(to, false, user_id, year, m2),
{
    let p = to + "/"@ + user_id + "/"@ + year + "/"@;
    let a = log_file(to, false, user_id, year, m1);
    let b = log_file(to, false, user_id, year, m2);
    assert(a =~= p + (m1 + ".txt"@));
    assert(b =~= p + (m2 + ".txt"@));
    if a == b {
        assert(m1.len() == m2.len());
        assert(m1 =~= a.subrange(p.len() as int, (p.len() + m1.len()) as int));
        assert(m2 =~= b.subrange(p.len() as int, (p.len() + m2.len()) as int));
    }
}

/// Index of the last `c` in `s` before `end`, or -1.
pub open spec fn last_of(s: Seq<char>, c: char, end: int) -> int
    decreases end,
{
    if end <= 0 || end > s.len() {
        -1
    } else if s[end - 1] == c {
        end - 1
    } else {
        last_of(s, c, end - 1)
    }
}

proof fn lemma_last_of_range(s: Seq<char>, c: char, end: int)
    requires
        0 <= end <= s.len(),
    ensures
        -1 <= last_of(s, c, end) < end,
    decreases end,
{
    if end > 0 && s[end - 1] != c {
        lemma_last_of_range(s, c, end - 1);
    }
}

fn find_last(s: &str, c: char) -> (r: i64)
    requires
        s@.len() < 0x7fff_ffff_ffff_ffff,
    ensures
        r == last_of(s@, c, s@.len() as int),
{
    let n = s.unicode_len();
    let mut end = n;
    while end > 0
        invariant
            n == s@.len(),
            n < 0x7fff_ffff_ffff_ffff,
            end <= n,
            last_of(s@, c, n as int) == last_of(s@, c, end as int),
        decreases end,
    {
        if s.get_char(end - 1) == c {
            return (end - 1) as i64;
        }
        end = end - 1;
    }
    -1
}

/// The last path component of `name`.
pub open spec fn base_name(name: Seq<char>) -> Seq<char> {
    name.subrange(last_of(name, '/', name.len() as int) + 1, name.len() as int)
}

/// Name under which a decrypted file is stored: `<stem>_<uuid>.<extension>`,
/// or `<name>_<uuid>` when the name has no extension. The stem and extension
/// are those of the last path component, split at its last `'.'` that is not
/// its first character.
pub open spec fn stored_name(name: Seq<char>, uuid: Seq<char>) -> Seq<char> {
    let b = base_name(name);
    let dot = last_of(b, '.', b.len() as int);
    if dot > 0 {
        b.subrange(0, dot) + "_"@ + uuid + "."@ + b.subrange(dot + 1, b.len() as int)
    } else {
        b + "_"@ + uuid
    }
}

/// Name under which the file displayed as `filename` is stored.
pub fn stored_file_name(filename: &str, uuid_filename: &str) -> (r: String)
    requires
        filename@.len() < 0x7fff_ffff_ffff_ffff,
    ensures
        r@ == stored_name(filename@, uuid_filename@),
{
    let n = filename.unicode_len();
    proof {
        lemma_last_of_range(filename@, '/', n as int);
    }
    let slash = find_last(filename, '/');
    let base = filename.substring_char((slash + 1) as usize, n);
    let m = base.unicode_len();
    proof {
        lemma_last_of_range(base@, '.', m as int);
    }
    let dot = find_last(base, '.');
    let mut r: String;
    if dot > 0 {
        r = base.substring_char(0, dot as usize).to_owned();
        r.append("_");
        r.append(uuid_filename);
        r.append(".");
        r.append(base.substring_char((dot + 1) as usize, m));
    } else {
        r = base.to_owned();
        r.append("_");
        r.append(uuid_filename);
    }
    r
}

/// Path of the raw ciphertext of the file with storage id `uuid_filename`.
pub fn file_source_path(config: &Config, uuid_filename: &str) -> (r: String)
    ensures
        r@ == config.from_path@ + "/files/"@ + uuid_filename@,
{
    let mut r = config.from_path.clone();
    r.append("/files/");
    r.append(uuid_filename);
    r
}

/// Stands in for a file whose content does not decrypt.
pub open spec fn file_error() -> Seq<u8> {
    "Error decrypting file - Sorry!".spec_bytes()
}

/// A decrypted file and the path it is written to.
pub struct FileOutput {
    pub path: String,
    pub content: Vec<u8>,
}

/// Decrypts the stored ciphertext `content` of a file displayed as `filename`
/// with storage id `uuid_filename`; content that does not decrypt is replaced
/// by a placeholder.
pub fn decrypt_file(config: &Config, user_id: &str, encryption_key: &str, filename: &str, uuid_filename: &str, content: &str) -> (r: FileOutput)
    requires
        filename@.len() < 0x7fff_ffff_ffff_ffff,
    ensures
        r.path@ == config.to_path@ + "/"@ + user_id@ + "/files/"@ + stored_name(filename@, uuid_filename@),
        fernet_open_of(encryption_key@, content@) is None ==> r.content@ == file_error(),
        r.content@ == file_error() || fernet_open_of(encryption_key@, content@) == Some(r.content@),
{
    let mut path = config.to_path.clone();
    path.append("/");
    path.append(user_id);
    path.append("/files/");
    let name = stored_file_name(filename, uuid_filename);
    path.append(name.as_str());
    let content = match decrypt_by_key(encryption_key, content) {
        Ok(v) => v,
        Err(_) => "Error decrypting file - Sorry!".as_bytes_vec(),
    };
    FileOutput { path, content }
}

/// A file of a month to decrypt: where its ciphertext is and how it is shown.
pub struct FileJob {
    pub source_path: String,
    pub filename: String,
    pub uuid_filename: String,
}

/// What a month produces: its decrypted days in order, the text appended to
/// `log_path`, and the files to decrypt.
pub struct MonthOutput {
    pub log_path: String,
    pub days: Vec<DecryptedDay>,
    pub text: String,
    pub files: Vec<FileJob>,
}

/// The jobs as (filename, storage id) pairs.
pub open spec fn jobs_view(s: Seq<FileJob>) -> Seq<(Seq<char>, Seq<char>)> {
    s.map_values(|j: FileJob| (j.filename@, j.uuid_filename@))
}

/// The files that `days` refer to, in order.
pub open spec fn files_of(days: Seq<DayView>) -> Seq<(Seq<char>, Seq<char>)>
    decreases days.len(),
{
    if days.len() == 0 {
        Seq::empty()
    } else {
        files_of(days.drop_last()) + days.last().2
    }
}

/// Decrypts the month document `days` of `year`/`month` under `encryption_key`.
pub fn decrypt_file_content(config: &Config, user_id: &str, encryption_key: &str, year: &str, month: &str, days: &Vec<DayEntry>) -> (r: MonthOutput)
    ensures
        r.log_path@ == log_file(config.to_path@, config.to_single_file, user_id@, year@, month@),
        exists|dec: Seq<DecryptedDay>|
            {
                &&& dec.len() == days@.len()
                &&& forall|i: int| 0 <= i < days@.len() ==> day_result(encryption_key@, days@[i], #[trigger] dec[i])
                &&& r.text@ == render_days(year@, month@, by_day(days_view(dec)))
                &&& days_view(r.days@) == by_day(days_view(dec))
                &&& jobs_view(r.files@) == files_of(by_day(days_view(dec)))
            },
        forall|j: int| 0 <= j < r.files@.len() ==> (#[trigger] r.files@[j]).source_path@
            == config.from_path@ + "/files/"@ + r.files@[j].uuid_filename@,
{
    let decrypted = decrypt_month(encryption_key, days);
    let text = render_month(year, month, &decrypted);
    proof {
        assert(decrypted@.map_values(|d: DecryptedDay| d@) =~= days_view(decrypted@));
    }
    let ghost dv = days_view(decrypted@);
    let mut files: Vec<FileJob> = Vec::new();
    let mut i: usize = 0;
    while i < decrypted.len()
        invariant
            i <= decrypted@.len(),
            dv == days_view(decrypted@),
            jobs_view(files@) == files_of(dv.take(i as int)),
            forall|j: int| 0 <= j < files@.len() ==> (#[trigger] files@[j]).source_path@
                == config.from_path@ + "/files/"@ + files@[j].uuid_filename@,
        decreases decrypted.len() - i,
    {
        let d = &decrypted[i];
        let ghost start = jobs_view(files@);
        let ghost fv = dv[i as int].2;
        assert(fv == d.files@.map_values(|f: DecryptedFile| f@));
        let mut k: usize = 0;
        while k < d.files.len()
            invariant
                k <= d.files@.len(),
                fv == d.files@.map_values(|f: DecryptedFile| f@),
                jobs_view(files@) == start + fv.take(k as int),
                forall|j: int| 0 <= j < files@.len() ==> (#[trigger] files@[j]).source_path@
                    == config.from_path@ + "/files/"@ + files@[j].uuid_filename@,
            decreases d.files.len() - k,
        {
            let f = &d.files[k];
            let source_path = file_source_path(config, f.uuid_filename.as_str());
            let ghost before = files@;
            files.push(FileJob { source_path, filename: f.filename.clone(), uuid_filename: f.uuid_filename.clone() });
            assert(jobs_view(files@) =~= jobs_view(before).push(fv[k as int]));
            assert(fv.take(k + 1) =~= fv.take(k as int).push(fv[k as int]));
            k = k + 1;
        }
        assert(fv.take(d.files@.len() as int) =~= fv);
        assert(dv.take(i + 1).drop_last() =~= dv.take(i as int));
        i = i + 1;
    }
    assert(dv.take(decrypted@.len() as int) =~= dv);
    MonthOutput { log_path: log_path(config, user_id, year, month), days: decrypted, text, files }
}

/// Decrypts the month document `days` of the month and year that `config`
/// names.
pub fn decrypt_single_file(config: &Config, user_id: &str, encryption_key: &str, days: &Vec<DayEntry>) -> (r: MonthOutput)
    ensures
        r.log_path@ == log_file(config.to_path@, config.to_single_file, user_id@, decimal_of(config.year as nat), month_text(config.month)),
        exists|dec: Seq<DecryptedDay>|
            {
                &&& dec.len() == days@.len()
                &&& forall|i: int| 0 <= i < days@.len() ==> day_result(encryption_key@, days@[i], #[trigger] dec[i])
                &&& r.text@ == render_days(decimal_of(config.year as nat), month_text(config.month), by_day(days_view(dec)))
                &&& days_view(r.days@) == by_day(days_view(dec))
                &&& jobs_view(r.files@) == files_of(by_day(days_view(dec)))
            },
        forall|j: int| 0 <= j < r.files@.len() ==> (#[trigger] r.files@[j]).source_path@
            == config.from_path@ + "/files/"@ + r.files@[j].uuid_filename@,
{
    let year = decimal(config.year as u64);
    let month = two_digit_month(config.month);
    decrypt_file_content(config, user_id, encryption_key, year.as_str(), month.as_str(), days)
}

} // verus!
