//! Decryption of one month's day records.

use vstd::prelude::*;

use crate::crypto::{decrypt_text, opened_text};

verus! {

/// An encrypted file reference of a day.
#[derive(Debug, Clone)]
pub struct FileRef {
    /// Token holding the display filename.
    pub enc_filename: String,
    /// Storage identifier of the file's ciphertext.
    pub uuid_filename: String,
}

/// An encrypted day record.
#[derive(Debug, Clone)]
pub struct DayEntry {
    pub day: u8,
    /// Token holding the day's text, if any.
    pub text: Option<String>,
    pub files: Vec<FileRef>,
}

/// A file reference as (filename token, storage id).
pub type FileRefView = (Seq<char>, Seq<char>);

impl View for FileRef {
    type V = FileRefView;

    open spec fn view(&self) -> FileRefView {
        (self.enc_filename@, self.uuid_filename@)
    }
}

/// The views of a sequence of file references.
pub open spec fn file_refs_view(s: Seq<FileRef>) -> Seq<FileRefView> {
    s.map_values(|f: FileRef| f@)
}

/// A day record as (day number, text token, file references).
pub type DayEntryView = (u8, Option<Seq<char>>, Seq<FileRefView>);

impl View for DayEntry {
    type V = DayEntryView;

    open spec fn view(&self) -> DayEntryView {
        (
            self.day,
            match self.text {
                Some(t) => Some(t@),
                None => None,
            },
            file_refs_view(self.files@),
        )
    }
}

/// The views of a sequence of day records.
pub open spec fn day_entries_view(s: Seq<DayEntry>) -> Seq<DayEntryView> {
    s.map_values(|d: DayEntry| d@)
}

/// A decrypted file reference.
#[derive(Debug)]
pub struct DecryptedFile {
    pub filename: String,
    pub uuid_filename: String,
}

/// A decrypted day record.
#[derive(Debug)]
pub struct DecryptedDay {
    pub day: u8,
    pub text: String,
    pub files: Vec<DecryptedFile>,
}

impl View for DecryptedFile {
    type V = (Seq<char>, Seq<char>);

    open spec fn view(&self) -> (Seq<char>, Seq<char>) {
        (self.filename@, self.uuid_filename@)
    }
}

/// A decrypted day as day number, text, and (filename, storage id) pairs.
pub type DayView = (u8, Seq<char>, Seq<(Seq<char>, Seq<char>)>);

impl View for DecryptedDay {
    type V = DayView;

    open spec fn view(&self) -> DayView {
        (self.day, self.text@, self.files@.map_values(|f: DecryptedFile| f@))
    }
}

/// The views of a sequence of decrypted days.
pub open spec fn days_view(s: Seq<DecryptedDay>) -> Seq<DayView> {
    s.map_values(|d: DecryptedDay| d@)
}

/// Stands in for a text that does not decrypt.
pub open spec fn text_error() -> Seq<char> {
    "Error decrypting text - Sorry!"@
}

/// Stands in for a filename that does not decrypt.
pub open spec fn filename_error() -> Seq<char> {
    "Error decrypting file - Sorry!"@
}

/// `out` is what the token `tok` gives under `key`: its text, or `err` when it
/// does not open (and only then may `err` stand where a text would).
pub open spec fn token_result(key: Seq<char>, tok: Seq<char>, err: Seq<char>, out: Seq<char>) -> bool {
    &&& opened_text(key, tok) is None ==> out == err
    &&& out == err || opened_text(key, tok) == Some(out)
}

/// `out` is the decrypted text of a day whose text field is `t`.
pub open spec fn text_result(key: Seq<char>, t: Option<String>, out: Seq<char>) -> bool {
    match t {
        Some(s) => if s@.len() == 0 {
            out.len() == 0
        } else {
            token_result(key, s@, text_error(), out)
        },
        None => out.len() == 0,
    }
}

/// `o` is the decryption of `e` under `key`.
pub open spec fn day_result(key: Seq<char>, e: DayEntry, o: DecryptedDay) -> bool {
    &&& o.day == e.day
    &&& text_result(key, e.text, o.text@)
    &&& o.files@.len() == e.files@.len()
    &&& forall|j: int| 0 <= j < e.files@.len() ==> {
        &&& (#[trigger] o.files@[j]).uuid_filename@ == e.files@[j].uuid_filename@
        &&& token_result(key, e.files@[j].enc_filename@, filename_error(), o.files@[j].filename@)
    }
}

/// The text of a decrypted token, or `fallback` when there is none.
pub fn text_or(opened: Option<String>, fallback: &str) -> (r: String)
    ensures
        r@ == match opened {
            Some(t) => t@,
            None => fallback@,
        },
{
    match opened {
        Some(t) => t,
        None => fallback.to_owned(),
    }
}

/// Decrypts a day's text; an absent or empty text gives the empty string and
/// one that does not decrypt gives a placeholder.
pub fn decrypt_day_text(key: &str, text: &Option<String>) -> (r: String)
    ensures
        text_result(key@, *text, r@),
{
    match text {
        Some(t) => {
            if t.unicode_len() == 0 {
                String::new()
            } else {
                text_or(decrypt_text(key, t.as_str()), "Error decrypting text - Sorry!")
            }
        },
        None => String::new(),
    }
}

/// Decrypts one day record under `key`.
pub fn decrypt_day(key: &str, entry: &DayEntry) -> (r: DecryptedDay)
    ensures
        day_result(key@, *entry, r),
{
    let mut files: Vec<DecryptedFile> = Vec::new();
    let mut j: usize = 0;
    while j < entry.files.len()
        invariant
            j <= entry.files@.len(),
            files@.len() == j,
            forall|k: int| 0 <= k < j ==> {
                &&& (#[trigger] files@[k]).uuid_filename@ == entry.files@[k].uuid_filename@
                &&& token_result(key@, entry.files@[k].enc_filename@, filename_error(), files@[k].filename@)
            },
        decreases entry.files.len() - j,
    {
        let f = &entry.files[j];
        let filename = text_or(decrypt_text(key, f.enc_filename.as_str()), "Error decrypting file - Sorry!");
        files.push(DecryptedFile { filename, uuid_filename: f.uuid_filename.clone() });
        j = j + 1;
    }
    DecryptedDay { day: entry.day, text: decrypt_day_text(key, &entry.text), files }
}

/// The days of `s` with day number `d`, in their order in `s`.
pub open spec fn with_day(s: Seq<DayView>, d: int) -> Seq<DayView> {
    s.filter(day_is(d))
}

/// Holds of a day whose number is `d`.
pub open spec fn day_is(d: int) -> spec_fn(DayView) -> bool {
    |x: DayView| x.0 as int == d
}

/// The days of `s` with a day number up to `d`, ordered by day number, days
/// with equal numbers kept in their order in `s`.
pub open spec fn days_through(s: Seq<DayView>, d: int) -> Seq<DayView>
    decreases d + 1,
{
    if d < 0 {
        Seq::empty()
    } else {
        days_through(s, d - 1) + with_day(s, d)
    }
}

/// `s` stably ordered by day number.
pub open spec fn by_day(s: Seq<DayView>) -> Seq<DayView> {
    days_through(s, 255)
}

proof fn lemma_days_through_sorted(s: Seq<DayView>, d: int)
    ensures
        forall|i: int| 0 <= i < days_through(s, d).len() ==> #[trigger] days_through(s, d)[i].0 <= d,
        forall|i: int, j: int|
            0 <= i < j < days_through(s, d).len() ==> #[trigger] days_through(s, d)[i].0
                <= #[trigger] days_through(s, d)[j].0,
    decreases d + 1,
{
    if d >= 0 {
        lemma_days_through_sorted(s, d - 1);
        let pre = days_through(s, d - 1);
        let w = with_day(s, d);
        broadcast use Seq::lemma_filter_pred;

        assert forall|i: int| 0 <= i < w.len() implies #[trigger] w[i].0 as int == d by {
            s.lemma_filter_pred(day_is(d), i);
        }
        let t = days_through(s, d);
        assert(t == pre + w);
        assert forall|i: int| 0 <= i < t.len() implies #[trigger] t[i].0 <= d by {
            if i >= pre.len() {
                assert(t[i] == w[i - pre.len()]);
            }
        }
        assert forall|i: int, j: int| 0 <= i < j < t.len() implies #[trigger] t[i].0 <= #[trigger] t[j].0 by {
            if j < pre.len() {
                assert(t[i] == pre[i] && t[j] == pre[j]);
            } else if i < pre.len() {
                assert(t[i] == pre[i] && t[j] == w[j - pre.len()]);
            } else {
                assert(t[i] == w[i - pre.len()] && t[j] == w[j - pre.len()]);
            }
        }
    }
}

/// Days ordered by day number come out in ascending order of day number.
pub proof fn by_day_is_sorted(s: Seq<DayView>)
    ensures
        forall|i: int, j: int|
            0 <= i < j < by_day(s).len() ==> #[trigger] by_day(s)[i].0 <= #[trigger] by_day(s)[j].0,
{
    lemma_days_through_sorted(s, 255);
}

proof fn lemma_with_day_count(s: Seq<DayView>, d: int, x: DayView)
    ensures
        with_day(s, d).to_multiset().count(x) == if x.0 as int == d {
            s.to_multiset().count(x)
        } else {
            0
        },
    decreases s.len(),
{
    broadcast use vstd::multiset::group_multiset_axioms;
    broadcast use vstd::seq_lib::to_multiset_build;

    reveal(Seq::filter);
    if s.len() == 0 {
        s.to_multiset_ensures();
    } else {
        lemma_with_day_count(s.drop_last(), d, x);
        assert(s =~= s.drop_last().push(s.last()));
    }
}

proof fn lemma_days_through_count(s: Seq<DayView>, d: int, x: DayView)
    ensures
        days_through(s, d).to_multiset().count(x) == if x.0 as int <= d {
            s.to_multiset().count(x)
        } else {
            0
        },
    decreases d + 1,
{
    broadcast use vstd::multiset::group_multiset_axioms;
    broadcast use vstd::seq_lib::lemma_multiset_commutative;

    if d < 0 {
        days_through(s, d).to_multiset_ensures();
    } else {
        lemma_days_through_count(s, d - 1, x);
        lemma_with_day_count(s, d, x);
    }
}

/// Ordering by day number keeps every day: each day occurs in the result as
/// often as in the input, duplicates included.
pub proof fn by_day_keeps_days(s: Seq<DayView>)
    ensures
        by_day(s).to_multiset() == s.to_multiset(),
{
    broadcast use vstd::multiset::group_multiset_axioms;

    assert forall|x: DayView| #[trigger] by_day(s).to_multiset().count(x) == s.to_multiset().count(x) by {
        lemma_days_through_count(s, 255, x);
    }
    assert(by_day(s).to_multiset() =~= s.to_multiset());
}

fn copy_file(f: &DecryptedFile) -> (r: DecryptedFile)
    ensures
        r@ == f@,
{
    DecryptedFile { filename: f.filename.clone(), uuid_filename: f.uuid_filename.clone() }
}

fn copy_day(d: &DecryptedDay) -> (r: DecryptedDay)
    ensures
        r@ == d@,
{
    let mut files: Vec<DecryptedFile> = Vec::new();
    let mut j: usize = 0;
    while j < d.files.len()
        invariant
            j <= d.files@.len(),
            files@.len() == j,
            forall|k: int| 0 <= k < j ==> (#[trigger] files@[k])@ == d.files@[k]@,
        decreases d.files.len() - j,
    {
        files.push(copy_file(&d.files[j]));
        j = j + 1;
    }
    let r = DecryptedDay { day: d.day, text: d.text.clone(), files };
    assert(r.files@.map_values(|f: DecryptedFile| f@) =~= d.files@.map_values(|f: DecryptedFile| f@));
    r
}

/// Orders decrypted days by day number; days with equal numbers keep their
/// relative order.
pub fn order_by_day(days: &Vec<DecryptedDay>) -> (r: Vec<DecryptedDay>)
    ensures
        days_view(r@) == by_day(days_view(days@)),
{
    let mut out: Vec<DecryptedDay> = Vec::new();
    let mut d: u16 = 0;
    while d < 256
        invariant
            d <= 256,
            days_view(out@) == days_through(days_view(days@), d - 1),
        decreases 256 - d,
    {
        let mut i: usize = 0;
        while i < days.len()
            invariant
                d < 256,
                i <= days@.len(),
                days_view(out@) == days_through(days_view(days@), d - 1) + with_day(days_view(days@.take(i as int)), d as int),
            decreases days.len() - i,
        {
            let ghost before = out@;
            proof {
                reveal(Seq::filter);
                assert(days_view(days@.take(i + 1)).drop_last() =~= days_view(days@.take(i as int)));
                assert(days_view(days@.take(i + 1)).last() == days@[i as int]@);
            }
            if days[i].day as u16 == d {
                let c = copy_day(&days[i]);
                out.push(c);
                proof {
                    assert(days_view(out@) =~= days_view(before).push(c@));
                }
            }
            i = i + 1;
        }
        assert(days@.take(days@.len() as int) =~= days@);
        d = d + 1;
    }
    out
}

/// Decrypts a month's day records under `key` and orders them by day number.
/// A day that does not decrypt yields placeholder text and leaves the other
/// days as they are.
pub fn decrypt_month(key: &str, days: &Vec<DayEntry>) -> (r: Vec<DecryptedDay>)
    ensures
        exists|dec: Seq<DecryptedDay>|
            {
                &&& dec.len() == days@.len()
                &&& forall|i: int| 0 <= i < days@.len() ==> day_result(key@, days@[i], #[trigger] dec[i])
                &&& days_view(r@) == by_day(days_view(dec))
            },
{
    let mut dec: Vec<DecryptedDay> = Vec::new();
    let mut i: usize = 0;
    while i < days.len()
        invariant
            i <= days@.len(),
            dec@.len() == i,
            forall|k: int| 0 <= k < i ==> day_result(key@, days@[k], #[trigger] dec@[k]),
        decreases days.len() - i,
    {
        let e = decrypt_day(key, &days[i]);
        dec.push(e);
        i = i + 1;
    }
    order_by_day(&dec)
}

} // verus!
