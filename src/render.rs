//! Rendering of decrypted days as readable text.

use vstd::prelude::*;
use vstd::string::{StrSliceExecFns, StringExecFns};

use crate::journal::{DayView, DecryptedDay, DecryptedFile};

verus! {

/// Unicode white space, as `char::is_whitespace` defines it.
pub open spec fn is_ws(c: char) -> bool {
    let u = c as u32;
    u == 0x20 || (0x09 <= u <= 0x0d) || u == 0x85 || u == 0xa0 || u == 0x1680 || (0x2000 <= u
        <= 0x200a) || u == 0x2028 || u == 0x2029 || u == 0x202f || u == 0x205f || u == 0x3000
}

/// `s` holds nothing but white space.
pub open spec fn is_blank(s: Seq<char>) -> bool {
    forall|i: int| 0 <= i < s.len() ==> is_ws(#[trigger] s[i])
}

fn char_is_ws(c: char) -> (r: bool)
    ensures
        r == is_ws(c),
{
    let u = c as u32;
    u == 0x20 || (0x09 <= u && u <= 0x0d) || u == 0x85 || u == 0xa0 || u == 0x1680 || (0x2000
        <= u && u <= 0x200a) || u == 0x2028 || u == 0x2029 || u == 0x202f || u == 0x205f || u
        == 0x3000
}

/// Whether `s` is empty once white space is trimmed.
pub fn is_blank_text(s: &str) -> (r: bool)
    ensures
        r == is_blank(s@),
{
    let n = s.unicode_len();
    let mut i: usize = 0;
    while i < n
        invariant
            n == s@.len(),
            i <= n,
            forall|k: int| 0 <= k < i ==> is_ws(#[trigger] s@[k]),
        decreases n - i,
    {
        if !char_is_ws(s.get_char(i)) {
            return false;
        }
        i = i + 1;
    }
    true
}

/// The decimal digit for `d < 10`.
pub open spec fn digit_char(d: nat) -> char {
    if d == 0 { '0' } else if d == 1 { '1' } else if d == 2 { '2' } else if d == 3 { '3' }
    else if d == 4 { '4' } else if d == 5 { '5' } else if d == 6 { '6' } else if d == 7 { '7' }
    else if d == 8 { '8' } else { '9' }
}

/// Decimal notation of `n`, without leading zeros.
pub open spec fn decimal_of(n: nat) -> Seq<char>
    decreases n,
{
    if n < 10 {
        seq![digit_char(n)]
    } else {
        decimal_of(n / 10) + seq![digit_char(n % 10)]
    }
}

fn digit_str(d: u64) -> (r: &'static str)
    requires
        d < 10,
    ensures
        r@ == seq![digit_char(d as nat)],
{
    proof {
        reveal_strlit("0");
        reveal_strlit("1");
        reveal_strlit("2");
        reveal_strlit("3");
        reveal_strlit("4");
        reveal_strlit("5");
        reveal_strlit("6");
        reveal_strlit("7");
        reveal_strlit("8");
        reveal_strlit("9");
    }
    let r = if d == 0 { "0" } else if d == 1 { "1" } else if d == 2 { "2" } else if d == 3 { "3" }
    else if d == 4 { "4" } else if d == 5 { "5" } else if d == 6 { "6" } else if d == 7 { "7" }
    else if d == 8 { "8" } else { "9" };
    assert(r@ =~= seq![digit_char(d as nat)]);
    r
}

/// Appends the decimal notation of `n` to `out`.
pub fn push_decimal(out: &mut String, n: u64)
    ensures
        final(out)@ == old(out)@ + decimal_of(n as nat),
    decreases n,
{
    if n < 10 {
        out.append(digit_str(n));
    } else {
        push_decimal(out, n / 10);
        out.append(digit_str(n % 10));
        assert(final(out)@ =~= old(out)@ + decimal_of(n as nat));
    }
}

/// The listing line of one file.
pub open spec fn file_line(f: (Seq<char>, Seq<char>)) -> Seq<char> {
    f.0 + " (with uuid: "@ + f.1 + ")\n"@
}

/// The listing lines of `fs`, in order.
pub open spec fn files_listing(fs: Seq<(Seq<char>, Seq<char>)>) -> Seq<char>
    decreases fs.len(),
{
    if fs.len() == 0 {
        Seq::empty()
    } else {
        files_listing(fs.drop_last()) + file_line(fs.last())
    }
}

/// The header of a day: `-----------\n<year>-<month>-<day>:\n-----------\n`.
pub open spec fn day_header(year: Seq<char>, month: Seq<char>, day: u8) -> Seq<char> {
    "-----------\n"@ + year + "-"@ + month + "-"@ + decimal_of(day as nat) + ":\n-----------\n"@
}

/// The rendering of one day; a day with blank text and no files renders as
/// nothing.
pub open spec fn day_block(year: Seq<char>, month: Seq<char>, d: DayView) -> Seq<char> {
    if is_blank(d.1) && d.2.len() == 0 {
        Seq::empty()
    } else {
        day_header(year, month, d.0) + (if !is_blank(d.1) {
            d.1 + "\n\n"@
        } else {
            Seq::empty()
        }) + (if d.2.len() > 0 {
            "Files:\n"@ + files_listing(d.2) + "\n"@
        } else {
            Seq::empty()
        }) + "\n"@
    }
}

/// The rendering of `days`, in order.
pub open spec fn render_days(year: Seq<char>, month: Seq<char>, days: Seq<DayView>) -> Seq<char>
    decreases days.len(),
{
    if days.len() == 0 {
        Seq::empty()
    } else {
        render_days(year, month, days.drop_last()) + day_block(year, month, days.last())
    }
}

fn push_files(out: &mut String, files: &Vec<DecryptedFile>)
    ensures
        final(out)@ == old(out)@ + files_listing(files@.map_values(|f: DecryptedFile| f@)),
{
    let ghost fv = files@.map_values(|f: DecryptedFile| f@);
    let mut j: usize = 0;
    while j < files.len()
        invariant
            j <= files@.len(),
            fv == files@.map_values(|f: DecryptedFile| f@),
            out@ == old(out)@ + files_listing(fv.take(j as int)),
        decreases files.len() - j,
    {
        let f = &files[j];
        out.append(f.filename.as_str());
        out.append(" (with uuid: ");
        out.append(f.uuid_filename.as_str());
        out.append(")\n");
        proof {
            assert(fv.take(j + 1).drop_last() =~= fv.take(j as int));
        }
        j = j + 1;
        assert(out@ =~= old(out)@ + files_listing(fv.take(j as int)));
    }
    assert(fv.take(files@.len() as int) =~= fv);
}

/// Appends the rendering of one day to `out`.
pub fn push_day(out: &mut String, year: &str, month: &str, d: &DecryptedDay)
    ensures
        final(out)@ == old(out)@ + day_block(year@, month@, d@),
{
    let blank = is_blank_text(d.text.as_str());
    if blank && d.files.len() == 0 {
        assert(old(out)@ + day_block(year@, month@, d@) =~= old(out)@);
        return;
    }
    out.append("-----------\n");
    out.append(year);
    out.append("-");
    out.append(month);
    out.append("-");
    push_decimal(out, d.day as u64);
    out.append(":\n-----------\n");
    if !blank {
        out.append(d.text.as_str());
        out.append("\n\n");
    }
    if d.files.len() > 0 {
        out.append("Files:\n");
        push_files(out, &d.files);
        out.append("\n");
    }
    out.append("\n");
    assert(final(out)@ =~= old(out)@ + day_block(year@, month@, d@));
}

/// Renders a month's decrypted days: for each day with non-blank text or
/// files, a `year-month-day` header, the text, and the listing of files.
pub fn render_month(year: &str, month: &str, days: &Vec<DecryptedDay>) -> (r: String)
    ensures
        r@ == render_days(year@, month@, days@.map_values(|d: DecryptedDay| d@)),
{
    let ghost dv = days@.map_values(|d: DecryptedDay| d@);
    let mut out = String::new();
    let mut i: usize = 0;
    while i < days.len()
        invariant
            i <= days@.len(),
            dv == days@.map_values(|d: DecryptedDay| d@),
            out@ == render_days(year@, month@, dv.take(i as int)),
        decreases days.len() - i,
    {
        push_day(&mut out, year, month, &days[i]);
        proof {
            assert(dv.take(i + 1).drop_last() =~= dv.take(i as int));
        }
        i = i + 1;
    }
    assert(dv.take(days@.len() as int) =~= dv);
    out
}

} // verus!
