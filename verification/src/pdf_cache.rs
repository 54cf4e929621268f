//! Names and limits of the local caches of chart documents: the file that holds a downloaded
//! document, the files of its rendered pages, how many rendered pages go when there are too
//! many, and the data address of a rendered page.
use vstd::prelude::*;
use crate::doc_inline::{base64_of, base64_standard};
use crate::text::{chars_of, decimal, decimal_of, has_suffix, has_suffix_of, push_all, push_str, string_of};

verus! {

broadcast use vstd::string::group_string_axioms;

/// Number of rendered pages kept on disk.
pub const MAX_RENDERED_PAGES: usize = 200;

/// The lower-case hexadecimal digit of `d`.
pub open spec fn hex_char(d: nat) -> char {
    if d < 10 { ((d + 48) as u32) as char } else { ((d + 87) as u32) as char }
}

/// The `k` lowest hexadecimal digits of `n`, the most significant first.
pub open spec fn hex_digits(n: nat, k: nat) -> Seq<char>
    decreases k,
{
    if k == 0 { Seq::empty() } else { hex_digits(n / 16, (k - 1) as nat).push(hex_char(n % 16)) }
}

fn hex_char_of(d: u64) -> (c: char)
    requires
        d < 16,
    ensures
        c == hex_char(d as nat),
{
    let digits = ['0', '1', '2', '3', '4', '5', '6', '7', '8', '9', 'a', 'b', 'c', 'd', 'e', 'f'];
    let c = digits[d as usize];
    assert(c == hex_char(d as nat)) by {
        assert(digits@ == seq!['0', '1', '2', '3', '4', '5', '6', '7', '8', '9', 'a', 'b', 'c', 'd', 'e', 'f']);
    }
    c
}

fn hex_digits_of(n: u64, k: u64) -> (r: Vec<char>)
    ensures
        r@ == hex_digits(n as nat, k as nat),
    decreases k,
{
    if k == 0 {
        Vec::new()
    } else {
        let mut v = hex_digits_of(n / 16, k - 1);
        v.push(hex_char_of(n % 16));
        v
    }
}

/// The name of the file that holds a downloaded document whose address hashes to `hash`:
/// sixteen hexadecimal digits, then `.pdf` for an address ending `.pdf`, else `.bin`.
pub fn document_file_name(hash: u64, url: &str) -> (r: String)
    ensures
        r@ == hex_digits(hash as nat, 16) + (if has_suffix(url@, ".pdf"@) { ".pdf"@ } else { ".bin"@ }),
{
    let mut v = hex_digits_of(hash, 16);
    if has_suffix_of(&chars_of(url), &chars_of(".pdf")) {
        push_str(&mut v, ".pdf");
    } else {
        push_str(&mut v, ".bin");
    }
    string_of(&v)
}

/// The name of the file that holds page `index` of a document whose address hashes to
/// `hash`: sixteen hexadecimal digits, `_`, the page number and `.png`.
pub fn rendered_page_file_name(hash: u64, index: u64) -> (r: String)
    ensures
        r@ == hex_digits(hash as nat, 16) + "_"@ + decimal(index as nat) + ".png"@,
{
    let mut v = hex_digits_of(hash, 16);
    push_str(&mut v, "_");
    push_all(&mut v, &decimal_of(index));
    push_str(&mut v, ".png");
    string_of(&v)
}

/// How many of the oldest rendered pages go when `count` are kept and at most `max` may be.
pub fn rendered_pages_to_prune(count: u64, max: u64) -> (r: u64)
    ensures
        r == (if count <= max { 0 } else { (count - max) as u64 }),
{
    if count <= max { 0 } else { count - max }
}

/// The data address of a rendered page, given its PNG bytes.
pub fn png_data_url(png: &Vec<u8>) -> (r: String)
    ensures
        r@ == "data:image/png;base64,"@ + base64_standard(png@),
{
    let mut v = chars_of("data:image/png;base64,");
    let b = base64_of(png);
    push_str(&mut v, b.as_str());
    string_of(&v)
}

} // verus!
