//! The cleanup rules: which file and directory names count as junk, and the
//! human-readable rendering of byte counts used by the cleanup summary.

use vstd::prelude::*;
use crate::text::{
    contains_seq, contains_str, dec_str, digit_char, lemma_rev_find_dot_correct, matches_at,
    rev_find_dot, str_eq, u64_to_dec, uint_to_dec,
};

verus! {

/// The file names that are junk outright.
pub open spec fn junk_file_name(s: Seq<char>) -> bool {
    ||| s == ".DS_Store"@
    ||| s == "Thumbs.db"@
    ||| s == "desktop.ini"@
}

/// The extensions whose files are junk.
pub open spec fn junk_extension(s: Seq<char>) -> bool {
    ||| s == "tmp"@
    ||| s == "temp"@
    ||| s == "swp"@
    ||| s == "swo"@
    ||| s == "bak"@
    ||| s == "old"@
    ||| s == "autosave"@
    ||| s == "log"@
    ||| s == "core"@
    ||| s == "dmp"@
    ||| s == "stackdump"@
    ||| s == "pyc"@
    ||| s == "pyo"@
    ||| s == "class"@
    ||| s == "ilk"@
}

/// The directory names whose trees are junk.
pub open spec fn junk_dir_name(s: Seq<char>) -> bool {
    ||| s == "tmp"@
    ||| s == "temp"@
    ||| s == ".cache"@
    ||| s == "cache"@
    ||| s == "Cache"@
    ||| s == "Caches"@
    ||| s == "__pycache__"@
    ||| s == "target"@
    ||| s == "dist"@
    ||| s == "build"@
    ||| s == "out"@
    ||| s == ".gradle"@
    ||| s == ".pytest_cache"@
    ||| s == ".mypy_cache"@
    ||| s == ".ruff_cache"@
    ||| s == ".parcel-cache"@
    ||| s == ".vite"@
    ||| s == ".next"@
    ||| s == ".nuxt"@
}

/// The final '.'-separated segment of a name: the characters after the last
/// '.', or the whole name when it holds none.
pub open spec fn last_dot_segment(s: Seq<char>) -> Seq<char> {
    match rev_find_dot(s) {
        Some(i) => s.subrange(i + 1, s.len() as int),
        None => s,
    }
}

fn last_segment_str(name: &str) -> (r: String)
    ensures
        r@ == last_dot_segment(name@),
{
    proof {
        reveal_strlit(".");
        assert("."@ =~= seq!['.']);
        lemma_rev_find_dot_correct(name@);
    }
    if contains_str(name, ".") {
        proof {
            let i = choose|i: int| matches_at(name@, "."@, i);
            assert(name@.subrange(i, i + 1)[0] == '.');
            assert(name@[i] == '.');
        }
        crate::text::extension_str(name)
    } else {
        proof {
            if rev_find_dot(name@) is Some {
                let i = rev_find_dot(name@)->Some_0;
                assert(name@.subrange(i, i + 1) =~= "."@);
                assert(matches_at(name@, "."@, i));
            }
        }
        name.to_owned()
    }
}

/// The cleanup command's configuration: where to clean, and whether hidden
/// entries and sub-directories take part.
pub struct CleanCommand {
    pub directory: String,
    pub search_hidden: bool,
    pub search_recursive: bool,
}

impl CleanCommand {
    /// Whether a file name is junk: an exact junk name, a name ending in
    /// '~', a junk final '.'-segment, or a rotated log (".log." occurs in
    /// the name).
    pub open spec fn is_junk_file_spec(name: Seq<char>) -> bool {
        ||| junk_file_name(name)
        ||| (name.len() > 0 && name.last() == '~')
        ||| junk_extension(last_dot_segment(name))
        ||| contains_seq(name, ".log."@)
    }

    /// Whether a file name is junk.
    pub fn is_junk_file(name: &str) -> (r: bool)
        ensures
            r == Self::is_junk_file_spec(name@),
    {
        if str_eq(name, ".DS_Store") || str_eq(name, "Thumbs.db") || str_eq(name, "desktop.ini") {
            return true;
        }
        let n = name.unicode_len();
        if n > 0 && name.get_char(n - 1) == '~' {
            return true;
        }
        let segment = last_segment_str(name);
        let s = segment.as_str();
        if str_eq(s, "tmp") || str_eq(s, "temp") || str_eq(s, "swp") || str_eq(s, "swo") || str_eq(
            s,
            "bak",
        ) || str_eq(s, "old") || str_eq(s, "autosave") || str_eq(s, "log") || str_eq(s, "core")
            || str_eq(s, "dmp") || str_eq(s, "stackdump") || str_eq(s, "pyc") || str_eq(s, "pyo")
            || str_eq(s, "class") || str_eq(s, "ilk") {
            return true;
        }
        if contains_str(name, ".log.") {
            return true;
        }
        false
    }

    /// Whether a directory name is junk.
    pub fn is_junk_dir(name: &str) -> (r: bool)
        ensures
            r == junk_dir_name(name@),
    {
        str_eq(name, "tmp") || str_eq(name, "temp") || str_eq(name, ".cache") || str_eq(
            name,
            "cache",
        ) || str_eq(name, "Cache") || str_eq(name, "Caches") || str_eq(name, "__pycache__")
            || str_eq(name, "target") || str_eq(name, "dist") || str_eq(name, "build") || str_eq(
            name,
            "out",
        ) || str_eq(name, ".gradle") || str_eq(name, ".pytest_cache") || str_eq(
            name,
            ".mypy_cache",
        ) || str_eq(name, ".ruff_cache") || str_eq(name, ".parcel-cache") || str_eq(name, ".vite")
            || str_eq(name, ".next") || str_eq(name, ".nuxt")
    }
}

/// A quotient rounded to the nearest integer, ties to even.
pub open spec fn round_half_even(n: nat, d: nat) -> nat {
    let q = n / d;
    let r = n % d;
    if 2 * r > d || (2 * r == d && q % 2 == 1) {
        q + 1
    } else {
        q
    }
}

/// A value of hundredths rendered with two decimal places.
pub open spec fn two_decimal_str(h: nat) -> Seq<char> {
    dec_str(h / 100) + seq!['.'] + seq![digit_char((h / 10) % 10), digit_char(h % 10)]
}

/// A byte count rendered for people: whole bytes below one kilobyte,
/// otherwise the count scaled to the largest binary unit it reaches, with
/// two decimal places. The quotients are exactly representable in binary,
/// so rounding ties go to even, as the standard two-place float rendering
/// resolves them.
pub open spec fn format_bytes_spec(bytes: u64) -> Seq<char> {
    if bytes >= 1073741824 {
        two_decimal_str(round_half_even(bytes as nat * 100, 1073741824)) + " GB"@
    } else if bytes >= 1048576 {
        two_decimal_str(round_half_even(bytes as nat * 100, 1048576)) + " MB"@
    } else if bytes >= 1024 {
        two_decimal_str(round_half_even(bytes as nat * 100, 1024)) + " KB"@
    } else {
        dec_str(bytes as nat) + " B"@
    }
}

fn fmt_scaled(bytes: u64, d: u64, unit: &str) -> (r: String)
    requires
        d > 0,
    ensures
        r@ == two_decimal_str(round_half_even(bytes as nat * 100, d as nat)) + unit@,
{
    proof {
        reveal_strlit(".");
        assert("."@ =~= seq!['.']);
    }
    let n: u128 = bytes as u128 * 100;
    let dd: u128 = d as u128;
    let q: u128 = n / dd;
    let rem: u128 = n % dd;
    let h: u128 = if 2 * rem > dd || (2 * rem == dd && q % 2 == 1) {
        q + 1
    } else {
        q
    };
    proof {
        assert(h == round_half_even(bytes as nat * 100, d as nat));
    }
    let mut s = uint_to_dec(h / 100);
    s.append(".");
    s.append(uint_to_dec(h / 10 % 10).as_str());
    s.append(uint_to_dec(h % 10).as_str());
    s.append(unit);
    proof {
        assert(s@ =~= two_decimal_str(h as nat) + unit@);
    }
    s
}

/// Renders a byte count for people.
pub fn format_bytes(bytes: u64) -> (r: String)
    ensures
        r@ == format_bytes_spec(bytes),
{
    if bytes >= 1073741824 {
        fmt_scaled(bytes, 1073741824, " GB")
    } else if bytes >= 1048576 {
        fmt_scaled(bytes, 1048576, " MB")
    } else if bytes >= 1024 {
        fmt_scaled(bytes, 1024, " KB")
    } else {
        let mut s = u64_to_dec(bytes);
        s.append(" B");
        s
    }
}

} // verus!
