use vstd::prelude::*;
use vstd::string::StrSliceExecFns;

verus! {

/// Whether a string is one of the two-letter codes of the ISO 639-1 table.
pub uninterp spec fn iso_639_1_known(code: Seq<char>) -> bool;

/// The entry at a position of the ISO 639-1 table: its code and its name.
pub uninterp spec fn iso_639_1_entry(index: int) -> Option<(Seq<char>, Seq<char>)>;

/// Relies on codes_iso_639's `LanguageCode::from_str`, which accepts exactly
/// the codes of its table.
#[verifier::external_body]
fn iso_639_1_lookup(lang: &str) -> (r: bool)
    ensures
        r == iso_639_1_known(lang@),
{
    lang.parse::<codes_iso_639::part_1::LanguageCode>().is_ok()
}

/// Relies on the length of codes_iso_639's `part_1::ALL_CODES`: the positions
/// below it hold an entry, and no others do.
#[verifier::external_body]
fn iso_639_1_len() -> (r: usize)
    ensures
        forall|i: int| #[trigger] iso_639_1_entry(i) is Some <==> 0 <= i < r,
{
    codes_iso_639::part_1::ALL_CODES.len()
}

/// Relies on codes_iso_639's `part_1::ALL_CODES[i]`, with its `code` and its
/// `language_name`.
#[verifier::external_body]
fn iso_639_1_at(i: usize) -> (r: (&'static str, &'static str))
    requires
        iso_639_1_entry(i as int) is Some,
    ensures
        iso_639_1_entry(i as int) == Some((r.0@, r.1@)),
{
    let code = codes_iso_639::part_1::ALL_CODES[i];
    (code.code(), code.language_name())
}

/// A name separator: a space followed by a semicolon at position `i`.
pub open spec fn separator_at(s: Seq<char>, i: int) -> bool {
    0 <= i && i + 1 < s.len() && s[i] == ' ' && s[i + 1] == ';'
}

/// `d` is the display form of the language name `s`: what comes before the
/// first separator, or all of `s` when it has none.
pub open spec fn is_display_name(s: Seq<char>, d: Seq<char>) -> bool {
    exists|i: int|
        0 <= i <= s.len() && d == #[trigger] s.subrange(0, i) && (i == s.len() || separator_at(s, i))
            && forall|j: int| 0 <= j < i ==> !#[trigger] separator_at(s, j)
}

/// Whether `lang` is a recognised language tag.
pub fn is_lang(lang: &str) -> (r: bool)
    ensures
        r == iso_639_1_known(lang@),
{
    iso_639_1_lookup(lang)
}

/// The display form of a language name (see `is_display_name`).
pub fn display_name(name: &str) -> (r: &str)
    ensures
        is_display_name(name@, r@),
{
    let n = name.unicode_len();
    let mut i: usize = 0;
    while i < n
        invariant
            n == name@.len(),
            i <= n,
            forall|j: int| 0 <= j < i ==> !#[trigger] separator_at(name@, j),
        decreases n - i,
    {
        if i + 1 < n && name.get_char(i) == ' ' && name.get_char(i + 1) == ';' {
            let r = name.substring_char(0, i);
            assert(separator_at(name@, i as int));
            assert(r@ == name@.subrange(0, i as int));
            return r;
        }
        i = i + 1;
    }
    let r = name.substring_char(0, n);
    assert(r@ == name@.subrange(0, n as int));
    r
}

/// The choices of language offered to a form, as (code, display name), in
/// the order of the ISO 639-1 table.
pub fn lang_choices() -> (r: Vec<(&'static str, &'static str)>)
    ensures
        forall|i: int| #[trigger] iso_639_1_entry(i) is Some <==> 0 <= i < r@.len(),
        forall|i: int|
            0 <= i < r@.len() ==> {
                let e = iso_639_1_entry(i)->0;
                &&& (#[trigger] r@[i]).0@ == e.0
                &&& is_display_name(e.1, r@[i].1@)
            },
{
    let n = iso_639_1_len();
    let mut r: Vec<(&'static str, &'static str)> = Vec::new();
    let mut i: usize = 0;
    while i < n
        invariant
            i <= n,
            r@.len() == i,
            forall|k: int| #[trigger] iso_639_1_entry(k) is Some <==> 0 <= k < n,
            forall|k: int|
                0 <= k < i ==> {
                    let e = iso_639_1_entry(k)->0;
                    &&& (#[trigger] r@[k]).0@ == e.0
                    &&& is_display_name(e.1, r@[k].1@)
                },
        decreases n - i,
    {
        assert(iso_639_1_entry(i as int) is Some);
        let (code, name) = iso_639_1_at(i);
        r.push((code, display_name(name)));
        i = i + 1;
    }
    r
}

} // verus!
