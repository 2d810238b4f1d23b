//! The text normalizer: turns arbitrary display text into a safe
//! identifier/filename fragment, and small text predicates the rest of the
//! wizard needs (blankness after trimming, substring search, digit parsing,
//! path stems).
use vstd::prelude::*;
use vstd::string::StrSliceExecFns;
use vstd::string::StringExecFns;

verus! {

/// Whether every character of the text is ASCII.
pub open spec fn is_ascii_seq(s: Seq<char>) -> bool {
    forall|i: int| 0 <= i < s.len() ==> (s[i] as int) < 128
}

/// The ASCII lowercase of one character: an ASCII capital letter gains 32,
/// every other character stays.
pub open spec fn ascii_lower(c: char) -> char {
    if 65 <= c as int && c as int <= 90 {
        ((c as int) + 32) as char
    } else {
        c
    }
}

/// Whether text already has the normalizer's output shape: ASCII, no
/// capital ASCII letters, and no spaces or hyphens.
pub open spec fn normalized_shape(s: Seq<char>) -> bool {
    &&& is_ascii_seq(s)
    &&& forall|i: int|
        0 <= i < s.len() ==> !(65 <= s[i] as int && s[i] as int <= 90) && s[i] != ' '
            && s[i] != '-'
}

/// The ASCII transliteration that `unidecode::unidecode` computes for a
/// string; the result depends on the characters alone.
pub uninterp spec fn unidecode_of(s: Seq<char>) -> Seq<char>;

/// The Unicode lowercasing that `str::to_lowercase` computes for a string;
/// the result depends on the characters alone.
pub uninterp spec fn lower_of(s: Seq<char>) -> Seq<char>;

/// The substring that `str::trim` returns: the input without leading and
/// trailing whitespace; the result depends on the characters alone.
pub uninterp spec fn trim_of(s: Seq<char>) -> Seq<char>;

/// Relies on unidecode::unidecode: transliterates Unicode text to ASCII,
/// by a fixed character table, so the result is a function of the input
/// text. Its documentation guarantees that the returned string is valid
/// ASCII and that every ASCII character is mapped to itself.
#[verifier::external_body]
fn unidecode_str(s: &str) -> (r: String)
    ensures
        r@ == unidecode_of(s@),
        is_ascii_seq(r@),
        is_ascii_seq(s@) ==> r@ == s@,
{
    unidecode::unidecode(s)
}

/// Relies on str::to_lowercase: the lowercase equivalent of the text, a
/// function of the input characters alone. On ASCII text the Unicode
/// lowercase mappings it is documented to apply are exactly the ASCII
/// ones: capital letters drop to their small forms, character for
/// character, and everything else stays.
#[verifier::external_body]
pub fn to_lowercase_str(s: &str) -> (r: String)
    ensures
        r@ == lower_of(s@),
        is_ascii_seq(s@) ==> r@ == s@.map_values(|c: char| ascii_lower(c)),
{
    s.to_lowercase()
}

/// Relies on str::trim: the input with leading and trailing whitespace
/// removed, a function of the input characters alone. What it returns is
/// documented to be a subslice, so it is never longer than the input, and
/// an empty string trims to itself.
#[verifier::external_body]
fn trim_str(s: &str) -> (r: &str)
    ensures
        r@ == trim_of(s@),
        r@.len() <= s@.len(),
        s@.len() == 0 ==> r@ == s@,
{
    s.trim()
}

/// Relies on String::push: appends the character to the end of the string.
#[verifier::external_body]
pub(crate) fn push_char(s: &mut String, c: char)
    ensures
        final(s)@ == old(s)@.push(c),
{
    s.push(c)
}

/// Relies on String::pop: removes and returns the last character, or
/// returns None and leaves the string unchanged when it is empty.
#[verifier::external_body]
pub fn pop_char(s: &mut String) -> (r: Option<char>)
    ensures
        old(s)@.len() == 0 ==> final(s)@ == old(s)@ && r is None,
        old(s)@.len() > 0 ==> final(s)@ == old(s)@.drop_last() && r == Some(
            old(s)@.last(),
        ),
{
    s.pop()
}

/// What one character becomes under separator substitution: spaces and
/// hyphens turn into underscores, everything else is kept.
pub open spec fn sep_mapped(c: char) -> char {
    if c == ' ' || c == '-' {
        '_'
    } else {
        c
    }
}

/// The whole separator substitution, character for character.
pub open spec fn replace_seps_spec(s: Seq<char>) -> Seq<char> {
    s.map_values(|c: char| sep_mapped(c))
}

/// Replaces every space and hyphen with an underscore.
pub fn replace_separators(s: &str) -> (r: String)
    ensures
        r@ == replace_seps_spec(s@),
{
    let n: usize = s.unicode_len();
    let mut out: String = String::new();
    let mut i: usize = 0;
    while i < n
        invariant
            n == s@.len(),
            i <= n,
            out@ == replace_seps_spec(s@.take(i as int)),
        decreases n - i,
    {
        let c = s.get_char(i);
        let mapped: char = if c == ' ' || c == '-' {
            '_'
        } else {
            c
        };
        push_char(&mut out, mapped);
        proof {
            assert(s@.take(i + 1).drop_last() =~= s@.take(i as int));
            assert(s@.take(i + 1).last() == s@[i as int]);
            assert(out@ =~= replace_seps_spec(s@.take(i + 1)));
        }
        i = i + 1;
    }
    proof {
        assert(s@.take(n as int) =~= s@);
    }
    out
}

/// The normalized form of display text: transliterated to ASCII, separators
/// replaced with underscores, then lowercased.
pub open spec fn normalize_spec(s: Seq<char>) -> Seq<char> {
    lower_of(replace_seps_spec(unidecode_of(s)))
}

/// Converts display text into a safe identifier/filename fragment. The
/// result always has the normalized shape — ASCII, lowercase, no spaces
/// or hyphens — and text that already has that shape passes through
/// unchanged, so normalizing twice gives what normalizing once does.
pub fn normalize_text(text: &str) -> (r: String)
    ensures
        r@ == normalize_spec(text@),
        normalized_shape(r@),
        normalized_shape(text@) ==> r@ == text@,
{
    let ascii = unidecode_str(text);
    let replaced = replace_separators(ascii.as_str());
    let ghost av = ascii@;
    let ghost rv = replaced@;
    proof {
        assert(is_ascii_seq(rv)) by {
            assert forall|i: int| 0 <= i < rv.len() implies (rv[i] as int) < 128 by {
                assert(rv[i] == sep_mapped(av[i]));
            }
        }
        assert(forall|i: int| 0 <= i < rv.len() ==> #[trigger] rv[i] != ' ' && rv[i] != '-')
            by {
            assert forall|i: int| 0 <= i < rv.len() implies #[trigger] rv[i] != ' ' && rv[i]
                != '-' by {
                assert(rv[i] == sep_mapped(av[i]));
            }
        }
    }
    let lowered = to_lowercase_str(replaced.as_str());
    proof {
        let lv = lowered@;
        assert(lv == rv.map_values(|c: char| ascii_lower(c)));
        assert(normalized_shape(lv)) by {
            assert forall|i: int| 0 <= i < lv.len() implies (lv[i] as int) < 128 && !(65
                <= lv[i] as int && lv[i] as int <= 90) && lv[i] != ' ' && lv[i] != '-' by {
                assert(lv[i] == ascii_lower(rv[i]));
            }
        }
        if normalized_shape(text@) {
            assert(av == text@);
            assert(rv =~= av) by {
                assert(forall|i: int|
                    0 <= i < av.len() ==> #[trigger] replace_seps_spec(av)[i] == sep_mapped(
                        av[i],
                    ) == av[i]);
            }
            assert(lv =~= text@) by {
                assert(forall|i: int|
                    0 <= i < rv.len() ==> #[trigger] lv[i] == ascii_lower(rv[i]) == rv[i]);
            }
        }
    }
    lowered
}

/// Whether text is blank: empty once leading and trailing whitespace go.
pub open spec fn is_blank_spec(s: Seq<char>) -> bool {
    trim_of(s).len() == 0
}

/// Decides whether text trims down to nothing.
pub fn is_blank(s: &str) -> (r: bool)
    ensures
        r == is_blank_spec(s@),
{
    trim_str(s).is_empty()
}

/// Trims leading and trailing whitespace, keeping the middle as owned text.
pub fn trimmed(s: &str) -> (r: String)
    ensures
        r@ == trim_of(s@),
{
    trim_str(s).to_owned()
}


/// Whether a character is an ASCII decimal digit.
pub open spec fn is_digit_char(c: char) -> bool {
    48 <= c as int && c as int <= 57
}

/// The number an all-digit string denotes, most significant digit first.
pub open spec fn digits_val(s: Seq<char>) -> int
    decreases s.len(),
{
    if s.len() == 0 {
        0
    } else {
        digits_val(s.drop_last()) * 10 + (s.last() as int - 48)
    }
}

/// Whether every character of the string is an ASCII decimal digit.
pub open spec fn all_digits(s: Seq<char>) -> bool {
    forall|i: int| 0 <= i < s.len() ==> is_digit_char(s[i])
}

/// The digit portion of a numeric literal: everything after one optional
/// leading plus sign.
pub open spec fn digits_of(s: Seq<char>) -> Seq<char> {
    if s.len() > 0 && s[0] == '+' {
        s.skip(1)
    } else {
        s
    }
}

/// What parsing text as an unsigned machine integer yields: the denoted
/// number when the text is an optional plus sign followed by one or more
/// digits and the number fits, nothing otherwise.
pub open spec fn parse_usize_spec(s: Seq<char>) -> Option<int> {
    let ds = digits_of(s);
    if ds.len() > 0 && all_digits(ds) && digits_val(ds) <= usize::MAX as int {
        Some(digits_val(ds))
    } else {
        None
    }
}

proof fn lemma_digits_val_take_le(s: Seq<char>, i: int)
    requires
        all_digits(s),
        0 <= i <= s.len(),
    ensures
        0 <= digits_val(s.take(i)) <= digits_val(s),
    decreases s.len() - i,
{
    if i == s.len() {
        assert(s.take(i) =~= s);
        lemma_digits_val_nonneg(s);
    } else {
        lemma_digits_val_take_le(s, i + 1);
        assert(s.take(i + 1).drop_last() =~= s.take(i));
        assert(digits_val(s.take(i + 1)) == digits_val(s.take(i)) * 10 + (s[i] as int - 48));
        lemma_digits_val_nonneg(s.take(i));
    }
}

proof fn lemma_digits_val_nonneg(s: Seq<char>)
    requires
        all_digits(s),
    ensures
        digits_val(s) >= 0,
    decreases s.len(),
{
    if s.len() > 0 {
        assert(all_digits(s.drop_last()));
        lemma_digits_val_nonneg(s.drop_last());
    }
}

/// Parses text as a row number the way the standard unsigned-integer parser
/// does: an optional plus sign, then one or more ASCII digits, and the
/// value must fit the machine word.
pub fn parse_usize(s: &str) -> (r: Option<usize>)
    ensures
        match r {
            Some(v) => parse_usize_spec(s@) == Some(v as int),
            None => parse_usize_spec(s@) is None,
        },
{
    let n: usize = s.unicode_len();
    let start: usize = if n > 0 && s.get_char(0) == '+' {
        1
    } else {
        0
    };
    let ghost ds = digits_of(s@);
    proof {
        assert(ds =~= s@.skip(start as int));
    }
    if n == start {
        return None;
    }
    let mut acc: usize = 0;
    let mut i: usize = start;
    while i < n
        invariant
            n == s@.len(),
            start <= i <= n,
            start <= 1,
            ds == s@.skip(start as int),
            ds == digits_of(s@),
            all_digits(ds.take(i - start)),
            acc == digits_val(ds.take(i - start)),
        decreases n - i,
    {
        let ghost k = i - start;
        let c = s.get_char(i);
        let u: u32 = c as u32;
        proof {
            assert(ds[k] == s@[i as int]);
        }
        if u < 48 || u > 57 {
            proof {
                assert(!is_digit_char(ds[k]));
            }
            return None;
        }
        let d: usize = (u - 48) as usize;
        proof {
            assert(ds.take(k + 1).drop_last() =~= ds.take(k));
            assert(digits_val(ds.take(k + 1)) == acc * 10 + d);
            assert(all_digits(ds.take(k + 1)));
        }
        let next = match acc.checked_mul(10) {
            Some(a) => a.checked_add(d),
            None => None,
        };
        match next {
            Some(a) => {
                acc = a;
            },
            None => {
                proof {
                    if all_digits(ds) {
                        lemma_digits_val_take_le(ds, k + 1);
                        assert(digits_val(ds) > usize::MAX as int);
                    }
                }
                return None;
            },
        }
        i = i + 1;
    }
    proof {
        assert(ds.take(n - start) =~= ds);
    }
    Some(acc)
}

/// Whether the needle occurs in the haystack starting at position `i`.
pub open spec fn matches_at(hay: Seq<char>, needle: Seq<char>, i: int) -> bool {
    &&& 0 <= i
    &&& i + needle.len() <= hay.len()
    &&& forall|k: int| 0 <= k < needle.len() ==> hay[i + k] == needle[k]
}

/// Whether the needle occurs anywhere in the haystack.
pub open spec fn contains_sub(hay: Seq<char>, needle: Seq<char>) -> bool {
    exists|i: int| matches_at(hay, needle, i)
}

fn match_at(hay: &str, needle: &str, i: usize) -> (r: bool)
    requires
        i + needle@.len() <= hay@.len(),
        hay@.len() <= usize::MAX,
    ensures
        r == matches_at(hay@, needle@, i as int),
{
    let m: usize = needle.unicode_len();
    let mut k: usize = 0;
    while k < m
        invariant
            m == needle@.len(),
            i + m <= hay@.len(),
            hay@.len() <= usize::MAX,
            k <= m,
            forall|t: int| 0 <= t < k ==> hay@[i + t] == needle@[t],
        decreases m - k,
    {
        if hay.get_char(i + k) != needle.get_char(k) {
            return false;
        }
        k = k + 1;
    }
    true
}

/// Decides whether one string occurs as a substring of another.
pub fn str_contains(hay: &str, needle: &str) -> (r: bool)
    ensures
        r == contains_sub(hay@, needle@),
{
    let n: usize = hay.unicode_len();
    let m: usize = needle.unicode_len();
    if m > n {
        return false;
    }
    let mut i: usize = 0;
    while i <= n - m
        invariant
            n == hay@.len(),
            m == needle@.len(),
            m <= n,
            i <= n - m + 1,
            forall|j: int| 0 <= j < i ==> !matches_at(hay@, needle@, j),
        decreases n - m - i + 1,
    {
        if match_at(hay, needle, i) {
            return true;
        }
        i = i + 1;
    }
    proof {
        assert(forall|j: int| j > n - m ==> !matches_at(hay@, needle@, j));
    }
    false
}

/// What std's Path::file_stem finds in a path: the file name without its
/// final extension, or nothing when the path has no file name. Path
/// parsing differs between target platforms, but it is fixed for one
/// build of this crate, so within one process the result depends on the
/// path text alone.
pub uninterp spec fn stem_of(s: Seq<char>) -> Option<Seq<char>>;

/// Relies on std's Path::file_stem: the stem of the path's file name,
/// converted back to owned text.
#[verifier::external_body]
pub fn file_stem_str(s: &str) -> (r: Option<String>)
    ensures
        match r {
            Some(t) => stem_of(s@) == Some(t@),
            None => stem_of(s@) is None,
        },
{
    std::path::Path::new(s).file_stem().and_then(|o| o.to_str()).map(|t| t.to_owned())
}

} // verus!

verus! {

/// Decides whether two pieces of text hold the same characters.
pub fn str_eq(a: &str, b: &str) -> (r: bool)
    ensures
        r == (a@ == b@),
{
    let n: usize = a.unicode_len();
    let m: usize = b.unicode_len();
    if n != m {
        return false;
    }
    let mut i: usize = 0;
    while i < n
        invariant
            n == a@.len(),
            n == b@.len(),
            i <= n,
            forall|j: int| 0 <= j < i ==> a@[j] == b@[j],
        decreases n - i,
    {
        if a.get_char(i) != b.get_char(i) {
            return false;
        }
        i = i + 1;
    }
    proof {
        assert(a@ =~= b@);
    }
    true
}

} // verus!
