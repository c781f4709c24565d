//! Deterministic names and paths for inputs, outputs and downloads.
//!
//! The worker derives the output file name from the job id and the
//! original file name; the upload path carries a fresh random token so
//! that two uploads of the same file never collide; the download URL is
//! derived from the stored output name.  All of it is plain string
//! construction, stated exactly over the character sequences.

use vstd::prelude::*;
use vstd::string::StringExecFns;

verus! {

/// The character for one decimal digit.
pub open spec fn dec_digit(d: int) -> char {
    if d == 0 {
        '0'
    } else if d == 1 {
        '1'
    } else if d == 2 {
        '2'
    } else if d == 3 {
        '3'
    } else if d == 4 {
        '4'
    } else if d == 5 {
        '5'
    } else if d == 6 {
        '6'
    } else if d == 7 {
        '7'
    } else if d == 8 {
        '8'
    } else {
        '9'
    }
}

/// The usual decimal rendering of a non-negative integer: no sign, no
/// leading zeros (a single `'0'` for zero).
pub open spec fn dec_seq(n: int) -> Seq<char>
    decreases n,
{
    if n < 10 {
        seq![dec_digit(n)]
    } else {
        dec_seq(n / 10).push(dec_digit(n % 10))
    }
}

/// The digits of `ds`, least significant first, rendered most significant
/// first.
spec fn digits_reversed(ds: Seq<u8>) -> Seq<char>
    decreases ds.len(),
{
    if ds.len() == 0 {
        Seq::empty()
    } else {
        seq![dec_digit(ds.last() as int)] + digits_reversed(ds.drop_last())
    }
}

proof fn lemma_digits_reversed_push(ds: Seq<u8>, d: u8)
    ensures
        digits_reversed(ds.push(d)) == seq![dec_digit(d as int)] + digits_reversed(ds),
{
    assert(ds.push(d).last() == d);
    assert(ds.push(d).drop_last() =~= ds);
}

/// Peeling the front digit off a reversed rendering of `ds[lo..hi]`.
proof fn lemma_digits_reversed_front(ds: Seq<u8>, lo: int, hi: int)
    requires
        0 <= lo < hi <= ds.len(),
    ensures
        digits_reversed(ds.subrange(lo, hi)) == digits_reversed(ds.subrange(lo + 1, hi))
            + seq![dec_digit(ds[lo] as int)],
    decreases hi - lo,
{
    let sub = ds.subrange(lo, hi);
    if hi == lo + 1 {
        assert(sub.len() == 1);
        assert(sub.drop_last() =~= ds.subrange(lo + 1, hi));
        assert(digits_reversed(sub) =~= digits_reversed(ds.subrange(lo + 1, hi)) + seq![
            dec_digit(ds[lo] as int),
        ]);
    } else {
        assert(sub.drop_last() =~= ds.subrange(lo, hi - 1));
        assert(ds.subrange(lo + 1, hi).drop_last() =~= ds.subrange(lo + 1, hi - 1));
        lemma_digits_reversed_front(ds, lo, hi - 1);
        assert(digits_reversed(sub) == seq![dec_digit(ds[hi - 1] as int)] + digits_reversed(
            ds.subrange(lo, hi - 1),
        ));
        assert(digits_reversed(ds.subrange(lo + 1, hi)) == seq![dec_digit(ds[hi - 1] as int)]
            + digits_reversed(ds.subrange(lo + 1, hi - 1)));
        assert(digits_reversed(sub) =~= digits_reversed(ds.subrange(lo + 1, hi)) + seq![
            dec_digit(ds[lo] as int),
        ]);
    }
}

/// The literal for one decimal digit.
fn digit_str(d: u8) -> (r: &'static str)
    requires
        d < 10,
    ensures
        r@ == seq![dec_digit(d as int)],
{
    proof {
        reveal_strlit("0");
        reveal_strlit("1");
        reveal_strlit("2");
        reveal_strlit("3");
        reveal_strlit("4");
        reveal_strlit("5");
        reveal_strlit("6");
        reveal_strlit("7");
        reveal_strlit("8");
        reveal_strlit("9");
    }
    let r = match d {
        0 => "0",
        1 => "1",
        2 => "2",
        3 => "3",
        4 => "4",
        5 => "5",
        6 => "6",
        7 => "7",
        8 => "8",
        _ => "9",
    };
    proof {
        assert(r@ =~= seq![dec_digit(d as int)]);
    }
    r
}

/// Renders an integer in decimal, exactly as [`dec_seq`] describes.
pub fn u64_to_dec_string(n: u64) -> (r: String)
    ensures
        r@ == dec_seq(n as int),
{
    let mut digits: Vec<u8> = Vec::new();
    let mut m: u64 = n;
    while m >= 10
        invariant
            dec_seq(n as int) == dec_seq(m as int) + digits_reversed(digits@),
            forall|k: int| 0 <= k < digits@.len() ==> digits@[k] < 10,
        decreases m,
    {
        let d: u8 = (m % 10) as u8;
        proof {
            lemma_digits_reversed_push(digits@, d);
            assert(dec_seq(m as int) == dec_seq(m as int / 10).push(dec_digit(m as int % 10)));
            assert(dec_seq(m as int / 10).push(dec_digit(m as int % 10)) + digits_reversed(
                digits@,
            ) =~= dec_seq(m as int / 10) + (seq![dec_digit(d as int)] + digits_reversed(digits@)));
        }
        digits.push(d);
        m = m / 10;
    }
    let d: u8 = m as u8;
    proof {
        lemma_digits_reversed_push(digits@, d);
        assert(dec_seq(m as int) =~= seq![dec_digit(d as int)]);
        assert(dec_seq(m as int) + digits_reversed(digits@) =~= seq![dec_digit(d as int)]
            + digits_reversed(digits@));
    }
    digits.push(d);
    assert(dec_seq(n as int) == digits_reversed(digits@));

    let ghost all: Seq<u8> = digits@;
    let mut r = String::new();
    let mut i: usize = digits.len();
    assert(digits@.subrange(i as int, digits@.len() as int) =~= Seq::<u8>::empty());
    while i > 0
        invariant
            i <= digits@.len(),
            digits@ == all,
            forall|k: int| 0 <= k < all.len() ==> all[k] < 10,
            r@ == digits_reversed(all.subrange(i as int, all.len() as int)),
        decreases i,
    {
        i = i - 1;
        let d = digits[i];
        proof {
            lemma_digits_reversed_front(all, i as int, all.len() as int);
        }
        r.append(digit_str(d));
    }
    proof {
        assert(all.subrange(0, all.len() as int) =~= all);
    }
    r
}

/// Relies on `uuid::Uuid::new_v4` and its `Display` form: a fresh random
/// version-4 UUID rendered in the hyphenated format, which is always 36
/// characters long.  Nothing more is promised of a random value.
#[verifier::external_body]
pub(crate) fn new_upload_token() -> (r: String)
    ensures
        r@.len() == 36,
{
    uuid::Uuid::new_v4().to_string()
}

/// A fresh name under which an uploaded file is stored: a random 36
/// character token, a hyphen, then the name the uploader gave.
pub fn fresh_stored_input_name(original_filename: &str) -> (r: String)
    ensures
        r@.len() == 37 + original_filename@.len(),
        r@.subrange(37, r@.len() as int) == original_filename@,
        r@[36] == '-',
{
    let mut r = new_upload_token();
    r.append("-");
    r.append(original_filename);
    proof {
        reveal_strlit("-");
        assert(r@.subrange(37, r@.len() as int) =~= original_filename@);
    }
    r
}

/// The output file name the worker writes for a job:
/// `<id>_<original filename>`.
pub fn output_file_name(id: u64, original_filename: &str) -> (r: String)
    ensures
        r@ == dec_seq(id as int) + "_"@ + original_filename@,
{
    let mut r = u64_to_dec_string(id);
    r.append("_");
    r.append(original_filename);
    r
}

/// The stored name of a compressed result in the ephemeral mode:
/// `compressed-<stored input name>`.
pub fn compressed_file_name(stored_input_name: &str) -> (r: String)
    ensures
        r@ == "compressed-"@ + stored_input_name@,
{
    let mut r = String::new();
    r.append("compressed-");
    r.append(stored_input_name);
    r
}

/// A path under `dir`: `<dir>/<file>`.
pub fn path_under(dir: &str, file: &str) -> (r: String)
    ensures
        r@ == dir@ + "/"@ + file@,
{
    let mut r = String::new();
    r.append(dir);
    r.append("/");
    r.append(file);
    r
}

/// The URL a client downloads a finished file from:
/// `<base>/download/<file>`.
pub fn download_url(base_url: &str, file: &str) -> (r: String)
    ensures
        r@ == base_url@ + "/download/"@ + file@,
{
    let mut r = String::new();
    r.append(base_url);
    r.append("/download/");
    r.append(file);
    r
}

/// The download response's content-disposition header value:
/// `attachment; filename="<name>"`.
pub fn content_disposition(file_name: &str) -> (r: String)
    ensures
        r@ == "attachment; filename=\""@ + file_name@ + "\""@,
{
    let mut r = String::new();
    r.append("attachment; filename=\"");
    r.append(file_name);
    r.append("\"");
    r
}

/// The filename used when an upload carries none.
pub fn default_upload_filename() -> (r: String)
    ensures
        r@ == "upload.pdf"@,
{
    String::from_str("upload.pdf")
}

} // verus!
