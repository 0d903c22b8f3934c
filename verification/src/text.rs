//! Verified text utilities: decimal rendering of integers, parsing of
//! unsigned integers, extension extraction from file names, and substring
//! containment.

use vstd::prelude::*;

verus! {

// ---------------------------------------------------------------------------
// Decimal rendering
// ---------------------------------------------------------------------------

/// The character for one decimal digit.
pub open spec fn digit_char(d: nat) -> char {
    if d == 0 {
        '0'
    } else if d == 1 {
        '1'
    } else if d == 2 {
        '2'
    } else if d == 3 {
        '3'
    } else if d == 4 {
        '4'
    } else if d == 5 {
        '5'
    } else if d == 6 {
        '6'
    } else if d == 7 {
        '7'
    } else if d == 8 {
        '8'
    } else {
        '9'
    }
}

/// The decimal rendering of a natural number, without sign or padding.
pub open spec fn dec_str(n: nat) -> Seq<char>
    decreases n,
{
    if n < 10 {
        seq![digit_char(n)]
    } else {
        dec_str(n / 10).push(digit_char(n % 10))
    }
}

fn digit_str(d: u128) -> (r: &'static str)
    requires
        d < 10,
    ensures
        r@ =~= seq![digit_char(d as nat)],
{
    proof {
        reveal_strlit("0");
        reveal_strlit("1");
        reveal_strlit("2");
        reveal_strlit("3");
        reveal_strlit("4");
        reveal_strlit("5");
        reveal_strlit("6");
        reveal_strlit("7");
        reveal_strlit("8");
        reveal_strlit("9");
    }
    match d {
        0 => "0",
        1 => "1",
        2 => "2",
        3 => "3",
        4 => "4",
        5 => "5",
        6 => "6",
        7 => "7",
        8 => "8",
        _ => "9",
    }
}

/// Renders an unsigned integer in decimal.
pub fn uint_to_dec(n: u128) -> (r: String)
    ensures
        r@ == dec_str(n as nat),
    decreases n,
{
    if n < 10 {
        digit_str(n).to_owned()
    } else {
        let mut s = uint_to_dec(n / 10);
        s.append(digit_str(n % 10));
        proof {
            assert(dec_str(n as nat) =~= dec_str((n / 10) as nat) + seq![
                digit_char((n % 10) as nat),
            ]);
        }
        s
    }
}

/// Renders a `u64` in decimal, as its standard display does.
pub fn u64_to_dec(n: u64) -> (r: String)
    ensures
        r@ == dec_str(n as nat),
{
    uint_to_dec(n as u128)
}

// ---------------------------------------------------------------------------
// Parsing of unsigned integers
// ---------------------------------------------------------------------------

/// Whether a character is an ASCII decimal digit ('0' is code 48, '9' is 57).
pub open spec fn is_digit(c: char) -> bool {
    48 <= c as int && c as int <= 57
}

/// The numeric value of an ASCII decimal digit.
pub open spec fn digit_val(c: char) -> nat {
    ((c as int) - 48) as nat
}

/// The value of a sequence of decimal digits, most significant first.
pub open spec fn digits_val(s: Seq<char>) -> nat
    decreases s.len(),
{
    if s.len() == 0 {
        0
    } else {
        digits_val(s.drop_last()) * 10 + digit_val(s.last())
    }
}

/// The digit portion of a decimal numeral: an optional leading '+' is
/// stripped, as the standard unsigned-integer parser accepts one.
pub open spec fn numeral_digits(s: Seq<char>) -> Seq<char> {
    if s.len() > 0 && s[0] == '+' {
        s.drop_first()
    } else {
        s
    }
}

/// What parsing a string as a `u64` returns: the digits' value when the
/// string is an optional '+' followed by one or more decimal digits and the
/// value fits in a `u64`; nothing otherwise.
pub open spec fn parse_u64_spec(s: Seq<char>) -> Option<u64> {
    let d = numeral_digits(s);
    if d.len() > 0 && (forall|i: int| 0 <= i < d.len() ==> is_digit(#[trigger] d[i]))
        && digits_val(d) <= u64::MAX {
        Some(digits_val(d) as u64)
    } else {
        None
    }
}

proof fn lemma_digits_val_prefix_mono(s: Seq<char>, j: int, k: int)
    requires
        0 <= j <= k <= s.len(),
    ensures
        digits_val(s.subrange(0, j)) <= digits_val(s.subrange(0, k)),
    decreases k - j,
{
    if j < k {
        lemma_digits_val_prefix_mono(s, j, k - 1);
        assert(s.subrange(0, k).drop_last() =~= s.subrange(0, k - 1));
        assert(digits_val(s.subrange(0, k)) == digits_val(s.subrange(0, k - 1)) * 10 + digit_val(
            s.subrange(0, k)[k - 1],
        ));
    }
}

/// Parses a string as a `u64`, accepting exactly what the standard
/// unsigned-integer parser accepts: an optional leading '+', then one or
/// more decimal digits, whose value must fit.
pub fn parse_u64(s: &str) -> (r: Option<u64>)
    ensures
        r == parse_u64_spec(s@),
{
    let n = s.unicode_len();
    let mut start: usize = 0;
    if n > 0 && s.get_char(0) == '+' {
        start = 1;
    }
    proof {
        assert(s@.subrange(start as int, n as int) =~= numeral_digits(s@));
    }
    let ghost d = numeral_digits(s@);
    if start == n {
        return None;
    }
    let mut acc: u64 = 0;
    let mut k: usize = start;
    while k < n
        invariant
            start <= k <= n,
            n == s@.len(),
            start < n,
            d == s@.subrange(start as int, n as int),
            d == numeral_digits(s@),
            forall|i: int| start <= i < k ==> is_digit(#[trigger] s@[i]),
            acc == digits_val(s@.subrange(start as int, k as int)),
        decreases n - k,
    {
        let c = s.get_char(k);
        let cv = c as u32;
        if cv < 48 || 57 < cv {
            proof {
                assert(d[k - start] == s@[k as int]);
                assert(!is_digit(s@[k as int]));
            }
            return None;
        }
        let dv: u64 = (cv - 48) as u64;
        proof {
            assert(dv == digit_val(s@[k as int]));
        }
        let ghost prev = s@.subrange(start as int, k as int);
        let ghost cur = s@.subrange(start as int, k as int + 1);
        proof {
            assert(cur.drop_last() =~= prev);
            assert(cur.last() == s@[k as int]);
            assert(digits_val(cur) == digits_val(prev) * 10 + digit_val(s@[k as int]));
        }
        let step = match acc.checked_mul(10) {
            Some(m) => m.checked_add(dv),
            None => None,
        };
        match step {
            Some(v) => {
                acc = v;
            },
            None => {
                proof {
                    assert(digits_val(cur) > u64::MAX);
                    lemma_digits_val_prefix_mono(
                        s@.subrange(start as int, n as int),
                        k - start + 1,
                        n - start,
                    );
                    assert(s@.subrange(start as int, n as int).subrange(0, k - start + 1) =~= cur);
                    assert(s@.subrange(start as int, n as int).subrange(0, n - start) =~= d);
                    assert(digits_val(d) > u64::MAX);
                }
                return None;
            },
        }
        k += 1;
    }
    proof {
        assert(s@.subrange(start as int, n as int) =~= d);
        assert(forall|i: int| 0 <= i < d.len() ==> is_digit(#[trigger] d[i]));
    }
    Some(acc)
}

// ---------------------------------------------------------------------------
// Extensions
// ---------------------------------------------------------------------------

/// The position of the last '.' in a sequence, if any.
pub open spec fn rev_find_dot(s: Seq<char>) -> Option<int>
    decreases s.len(),
{
    if s.len() == 0 {
        None
    } else if s.last() == '.' {
        Some(s.len() - 1)
    } else {
        rev_find_dot(s.drop_last())
    }
}

/// The extension of a file name: the characters after the last '.', or the
/// empty sequence when the name holds no '.'.
pub open spec fn extension_of(name: Seq<char>) -> Seq<char> {
    match rev_find_dot(name) {
        Some(i) => name.subrange(i + 1, name.len() as int),
        None => Seq::empty(),
    }
}

/// `rev_find_dot` finds the last '.' exactly: it returns nothing only when
/// no '.' occurs, and otherwise the position of a '.' with none after it.
pub proof fn lemma_rev_find_dot_correct(s: Seq<char>)
    ensures
        match rev_find_dot(s) {
            None => forall|i: int| 0 <= i < s.len() ==> s[i] != '.',
            Some(i) => 0 <= i < s.len() && s[i] == '.' && (forall|j: int|
                i < j < s.len() ==> s[j] != '.'),
        },
    decreases s.len(),
{
    if s.len() == 0 {
    } else if s.last() == '.' {
        assert(s[s.len() - 1] == '.');
    } else {
        lemma_rev_find_dot_correct(s.drop_last());
        assert(s[s.len() - 1] != '.');
        match rev_find_dot(s.drop_last()) {
            None => {
                assert forall|i: int| 0 <= i < s.len() implies s[i] != '.' by {
                    if i < s.len() - 1 {
                        assert(s.drop_last()[i] != '.');
                        assert(s.drop_last()[i] == s[i]);
                    }
                }
            },
            Some(i) => {
                assert(s.drop_last()[i] == '.');
                assert(s[i] == '.');
                assert forall|j: int| i < j < s.len() implies s[j] != '.' by {
                    if j < s.len() - 1 {
                        assert(s.drop_last()[j] != '.');
                        assert(s.drop_last()[j] == s[j]);
                    }
                }
            },
        }
    }
}

/// Extension extraction is exact: for a name with no '.' it is empty, and
/// otherwise it is the substring after the last '.'.
pub proof fn lemma_extension_of_characterized(name: Seq<char>)
    ensures
        (forall|i: int| 0 <= i < name.len() ==> name[i] != '.') ==> extension_of(name)
            == Seq::<char>::empty(),
        forall|i: int|
            0 <= i < name.len() && name[i] == '.' && (forall|j: int|
                i < j < name.len() ==> name[j] != '.') ==> extension_of(name) == name.subrange(
                i + 1,
                name.len() as int,
            ),
{
    lemma_rev_find_dot_correct(name);
    if rev_find_dot(name) is Some {
        let found = rev_find_dot(name)->Some_0;
        assert forall|i: int|
            0 <= i < name.len() && name[i] == '.' && (forall|j: int|
                i < j < name.len() ==> name[j] != '.') implies extension_of(name) == name.subrange(
            i + 1,
            name.len() as int,
        ) by {
            if i != found {
                assert(name[if i < found {
                    found
                } else {
                    i
                }] != '.');
            }
        }
    }
}

/// Extracts the extension of a file name.
pub fn extension_str(name: &str) -> (r: String)
    ensures
        r@ == extension_of(name@),
{
    let n = name.unicode_len();
    let mut j: usize = n;
    proof {
        assert(name@.subrange(0, n as int) =~= name@);
    }
    while j > 0
        invariant
            0 <= j <= n,
            n == name@.len(),
            rev_find_dot(name@) == rev_find_dot(name@.subrange(0, j as int)),
        decreases j,
    {
        let c = name.get_char(j - 1);
        if c == '.' {
            proof {
                assert(name@.subrange(0, j as int).last() == '.');
            }
            return name.substring_char(j, n).to_owned();
        }
        proof {
            assert(name@.subrange(0, j as int).drop_last() =~= name@.subrange(0, j as int - 1));
        }
        j -= 1;
    }
    proof {
        assert(name@.subrange(0, 0) =~= Seq::<char>::empty());
    }
    String::new()
}

// ---------------------------------------------------------------------------
// Substring containment and simple predicates
// ---------------------------------------------------------------------------

/// Whether `sub` occurs in `s` at position `i`.
pub open spec fn matches_at(s: Seq<char>, sub: Seq<char>, i: int) -> bool {
    0 <= i && i + sub.len() <= s.len() && s.subrange(i, i + sub.len()) == sub
}

/// Whether `sub` occurs anywhere in `s`.
pub open spec fn contains_seq(s: Seq<char>, sub: Seq<char>) -> bool {
    exists|i: int| matches_at(s, sub, i)
}

/// Whether `sub` occurs anywhere in `s`.
pub fn contains_str(s: &str, sub: &str) -> (r: bool)
    ensures
        r == contains_seq(s@, sub@),
{
    let n = s.unicode_len();
    let m = sub.unicode_len();
    if m > n {
        proof {
            assert(forall|i: int| !matches_at(s@, sub@, i));
        }
        return false;
    }
    let mut i: usize = 0;
    while i <= n - m
        invariant
            0 <= i <= n - m + 1,
            m <= n,
            n == s@.len(),
            m == sub@.len(),
            forall|k: int| 0 <= k < i ==> !matches_at(s@, sub@, k),
        decreases n - i,
    {
        let mut j: usize = 0;
        let mut ok: bool = true;
        while j < m && ok
            invariant
                0 <= j <= m,
                i + m <= n,
                n == s@.len(),
                m == sub@.len(),
                ok ==> forall|t: int| 0 <= t < j ==> s@[i + t] == sub@[t],
                !ok ==> !matches_at(s@, sub@, i as int),
            decreases m - j,
        {
            if s.get_char(i + j) != sub.get_char(j) {
                proof {
                    if matches_at(s@, sub@, i as int) {
                        assert(s@.subrange(i as int, i + m as int)[j as int] == sub@[j as int]);
                    }
                }
                ok = false;
                j = m;
            } else {
                j += 1;
            }
        }
        if ok {
            proof {
                assert(s@.subrange(i as int, i + m as int) =~= sub@);
                assert(matches_at(s@, sub@, i as int));
            }
            return true;
        }
        proof {
            if m == 0 {
                assert(s@.subrange(i as int, i as int) =~= sub@);
                assert(matches_at(s@, sub@, i as int));
            }
            assert(m >= 1);
        }
        i += 1;
    }
    proof {
        assert forall|k: int| !matches_at(s@, sub@, k) by {
            if 0 <= k < i {
            } else if k >= i {
                assert(k + m > n ==> !matches_at(s@, sub@, k));
            }
        }
    }
    false
}

/// Whether a name is hidden: it begins with '.'.
pub open spec fn is_hidden_name(s: Seq<char>) -> bool {
    s.len() > 0 && s[0] == '.'
}

/// Whether a name is hidden: it begins with '.'.
pub fn name_is_hidden(name: &str) -> (r: bool)
    ensures
        r == is_hidden_name(name@),
{
    if name.unicode_len() == 0 {
        false
    } else {
        name.get_char(0) == '.'
    }
}

/// Equality of two string slices.
pub fn str_eq(a: &str, b: &str) -> (r: bool)
    ensures
        r == (a@ == b@),
{
    let x = a.to_owned();
    let y = b.to_owned();
    x == y
}

/// A path joined with one more component, separated by '/'.
pub open spec fn joined_path(dir: Seq<char>, name: Seq<char>) -> Seq<char> {
    dir + seq!['/'] + name
}

/// Joins a directory path with the name of one of its entries.
pub fn join_path(dir: &str, name: &str) -> (r: String)
    ensures
        r@ == joined_path(dir@, name@),
{
    proof {
        reveal_strlit("/");
        assert("/"@ =~= seq!['/']);
    }
    let mut s = dir.to_owned();
    s.append("/");
    s.append(name);
    s
}

} // verus!
