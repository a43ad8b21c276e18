//! Character-level text utilities: conversion between `String` and `Vec<char>`,
//! trimming, case folding for Latin and Cyrillic letters, prefix and substring
//! tests, and decimal rendering of integers.
use vstd::prelude::*;

verus! {

/// The whitespace characters that input normalization strips.
pub open spec fn is_space_char(c: char) -> bool {
    c == ' ' || c == '\t' || c == '\n' || c == '\r'
}

/// Executable mirror of [`is_space_char`].
pub fn is_space(c: char) -> (r: bool)
    ensures
        r == is_space_char(c),
{
    c == ' ' || c == '\t' || c == '\n' || c == '\r'
}

/// Relies on `String::push` from std: appends one character.
#[verifier::external_body]
pub fn push_char(s: &mut String, c: char)
    ensures
        final(s)@ == old(s)@.push(c),
{
    s.push(c);
}

/// Collects the characters of a string slice into a vector.
pub fn to_chars(s: &str) -> (v: Vec<char>)
    ensures
        v@ == s@,
{
    let n = s.unicode_len();
    let mut v: Vec<char> = Vec::new();
    let mut i: usize = 0;
    while i < n
        invariant
            n == s@.len(),
            i <= n,
            v@ == s@.take(i as int),
        decreases n - i,
    {
        let c = s.get_char(i);
        v.push(c);
        i = i + 1;
        proof {
            assert(v@ =~= s@.take(i as int));
        }
    }
    proof {
        assert(v@ =~= s@);
    }
    v
}

/// Builds a `String` from a slice of characters.
pub fn chars_to_string(v: &[char]) -> (s: String)
    ensures
        s@ == v@,
{
    let mut s = String::new();
    let mut i: usize = 0;
    while i < v.len()
        invariant
            i <= v@.len(),
            s@ == v@.take(i as int),
        decreases v@.len() - i,
    {
        push_char(&mut s, v[i]);
        i = i + 1;
        proof {
            assert(s@ =~= v@.take(i as int));
        }
    }
    proof {
        assert(s@ =~= v@);
    }
    s
}

/// What is left of `s` after removing leading whitespace.
pub open spec fn trim_start_spec(s: Seq<char>) -> Seq<char>
    decreases s.len(),
{
    if s.len() > 0 && is_space_char(s[0]) {
        trim_start_spec(s.drop_first())
    } else {
        s
    }
}

/// What is left of `s` after removing trailing whitespace.
pub open spec fn trim_end_spec(s: Seq<char>) -> Seq<char>
    decreases s.len(),
{
    if s.len() > 0 && is_space_char(s.last()) {
        trim_end_spec(s.drop_last())
    } else {
        s
    }
}

/// What is left of `s` after removing leading and trailing whitespace.
pub open spec fn trim_spec(s: Seq<char>) -> Seq<char> {
    trim_end_spec(trim_start_spec(s))
}

proof fn lemma_trim_start_skip(s: Seq<char>, i: int)
    requires
        0 <= i <= s.len(),
        forall|k: int| 0 <= k < i ==> is_space_char(s[k]),
        i == s.len() || !is_space_char(s[i]),
    ensures
        trim_start_spec(s) == s.skip(i),
    decreases i,
{
    if i == 0 {
        assert(s.skip(0) =~= s);
    } else {
        assert(is_space_char(s[0]));
        let t = s.drop_first();
        assert(forall|k: int| 0 <= k < i - 1 ==> is_space_char(#[trigger] t[k]));
        lemma_trim_start_skip(t, i - 1);
        assert(t.skip(i - 1) =~= s.skip(i));
    }
}

proof fn lemma_trim_end_take(s: Seq<char>, j: int)
    requires
        0 <= j <= s.len(),
        forall|k: int| j <= k < s.len() ==> is_space_char(s[k]),
        j == 0 || !is_space_char(s[j - 1]),
    ensures
        trim_end_spec(s) == s.take(j),
    decreases s.len() - j,
{
    if j == s.len() {
        assert(s.take(j) =~= s);
    } else {
        assert(is_space_char(s.last()));
        let t = s.drop_last();
        assert(forall|k: int| j <= k < t.len() ==> is_space_char(#[trigger] t[k]));
        lemma_trim_end_take(t, j);
        assert(t.take(j) =~= s.take(j));
    }
}

/// Removes leading and trailing whitespace from a character vector.
pub fn trim_chars(v: &Vec<char>) -> (r: Vec<char>)
    ensures
        r@ == trim_spec(v@),
{
    let n = v.len();
    let mut start: usize = 0;
    while start < n && is_space(v[start])
        invariant
            n == v@.len(),
            start <= n,
            forall|k: int| 0 <= k < start ==> is_space_char(v@[k]),
        decreases n - start,
    {
        start = start + 1;
    }
    let mut end: usize = n;
    while end > start && is_space(v[end - 1])
        invariant
            n == v@.len(),
            start <= end <= n,
            forall|k: int| end <= k < n ==> is_space_char(v@[k]),
        decreases end,
    {
        end = end - 1;
    }
    let ghost t = v@.skip(start as int);
    proof {
        lemma_trim_start_skip(v@, start as int);
        assert(forall|k: int| end - start <= k < t.len() ==> is_space_char(#[trigger] t[k]));
        if end > start {
            assert(!is_space_char(t[end - start - 1]));
        }
        lemma_trim_end_take(t, end - start);
    }
    let mut r: Vec<char> = Vec::new();
    let mut i: usize = start;
    while i < end
        invariant
            start <= i <= end <= n,
            n == v@.len(),
            r@ == v@.subrange(start as int, i as int),
        decreases end - i,
    {
        r.push(v[i]);
        i = i + 1;
        proof {
            assert(r@ =~= v@.subrange(start as int, i as int));
        }
    }
    proof {
        assert(r@ =~= t.take(end - start));
    }
    r
}

/// Compares two string slices by their character sequences.
pub fn str_eq(a: &str, b: &str) -> (r: bool)
    ensures
        r == (a@ == b@),
{
    let sa = a.to_owned();
    let sb = b.to_owned();
    sa == sb
}

/// `p` occurs in `s` starting at position `i`.
pub open spec fn occurs_at(s: Seq<char>, p: Seq<char>, i: int) -> bool {
    0 <= i && i + p.len() <= s.len() && s.subrange(i, i + p.len()) == p
}

/// `s` begins with `p`.
pub open spec fn has_prefix(s: Seq<char>, p: Seq<char>) -> bool {
    occurs_at(s, p, 0)
}

/// `p` occurs somewhere in `s`.
pub open spec fn contains_seq(s: Seq<char>, p: Seq<char>) -> bool {
    exists|i: int| occurs_at(s, p, i)
}

/// Does `p` occur in `v` at position `i`?
pub fn matches_at(v: &Vec<char>, p: &str, i: usize) -> (r: bool)
    requires
        i + p@.len() <= v@.len(),
    ensures
        r == occurs_at(v@, p@, i as int),
{
    let m = p.unicode_len();
    let mut j: usize = 0;
    while j < m
        invariant
            m == p@.len(),
            i + m <= v@.len(),
            v@.len() == v.len(),
            j <= m,
            forall|k: int| 0 <= k < j ==> v@[i + k] == p@[k],
        decreases m - j,
    {
        if v[i + j] != p.get_char(j) {
            proof {
                assert(v@.subrange(i as int, i + p@.len())[j as int] != p@[j as int]);
            }
            return false;
        }
        j = j + 1;
    }
    proof {
        assert(v@.subrange(i as int, i + p@.len()) =~= p@);
    }
    true
}

/// Does `v` begin with `p`?
pub fn starts_with_lit(v: &Vec<char>, p: &str) -> (r: bool)
    ensures
        r == has_prefix(v@, p@),
{
    let m = p.unicode_len();
    if m > v.len() {
        return false;
    }
    matches_at(v, p, 0)
}

/// Does `p` occur anywhere in `v`?
pub fn contains_lit(v: &Vec<char>, p: &str) -> (r: bool)
    ensures
        r == contains_seq(v@, p@),
{
    let m = p.unicode_len();
    if m > v.len() {
        proof {
            assert(forall|i: int| !occurs_at(v@, p@, i));
        }
        return false;
    }
    if m == 0 {
        proof {
            assert(v@.subrange(0, 0) =~= p@);
            assert(occurs_at(v@, p@, 0));
        }
        return true;
    }
    let limit = v.len() - m;
    let mut i: usize = 0;
    while i <= limit
        invariant
            m == p@.len(),
            1 <= m <= v@.len(),
            v@.len() == v.len(),
            limit == v.len() - m,
            i <= limit + 1,
            forall|k: int| 0 <= k < i ==> !occurs_at(v@, p@, k),
        decreases limit + 1 - i,
    {
        if matches_at(v, p, i) {
            return true;
        }
        i = i + 1;
    }
    proof {
        assert(forall|k: int| occurs_at(v@, p@, k) ==> 0 <= k && k + m <= v@.len());
    }
    false
}

/// Does `p` occur in `v` at position `i`? (vector needle)
pub fn matches_at_vec(v: &Vec<char>, p: &Vec<char>, i: usize) -> (r: bool)
    requires
        i + p@.len() <= v@.len(),
    ensures
        r == occurs_at(v@, p@, i as int),
{
    let m = p.len();
    let mut j: usize = 0;
    while j < m
        invariant
            m == p@.len(),
            i + m <= v@.len(),
            v@.len() == v.len(),
            j <= m,
            forall|k: int| 0 <= k < j ==> v@[i + k] == p@[k],
        decreases m - j,
    {
        if v[i + j] != p[j] {
            proof {
                assert(v@.subrange(i as int, i + p@.len())[j as int] != p@[j as int]);
            }
            return false;
        }
        j = j + 1;
    }
    proof {
        assert(v@.subrange(i as int, i + p@.len()) =~= p@);
    }
    true
}

/// Does `p` occur anywhere in `v`? (vector needle)
pub fn contains_vec(v: &Vec<char>, p: &Vec<char>) -> (r: bool)
    ensures
        r == contains_seq(v@, p@),
{
    let m = p.len();
    if m > v.len() {
        proof {
            assert(forall|i: int| !occurs_at(v@, p@, i));
        }
        return false;
    }
    if m == 0 {
        proof {
            assert(v@.subrange(0, 0) =~= p@);
            assert(occurs_at(v@, p@, 0));
        }
        return true;
    }
    let limit = v.len() - m;
    let mut i: usize = 0;
    while i <= limit
        invariant
            m == p@.len(),
            1 <= m <= v@.len(),
            v@.len() == v.len(),
            limit == v.len() - m,
            i <= limit + 1,
            forall|k: int| 0 <= k < i ==> !occurs_at(v@, p@, k),
        decreases limit + 1 - i,
    {
        if matches_at_vec(v, p, i) {
            return true;
        }
        i = i + 1;
    }
    proof {
        assert(forall|k: int| occurs_at(v@, p@, k) ==> 0 <= k && k + m <= v@.len());
    }
    false
}

/// Lexicographic order on character sequences, by code point.
pub open spec fn lex_le(a: Seq<char>, b: Seq<char>) -> bool
    decreases a.len(),
{
    if a.len() == 0 {
        true
    } else if b.len() == 0 {
        false
    } else if a[0] != b[0] {
        (a[0] as u32) < (b[0] as u32)
    } else {
        lex_le(a.drop_first(), b.drop_first())
    }
}

proof fn lemma_lex_le_common_prefix(a: Seq<char>, b: Seq<char>, i: int)
    requires
        0 <= i <= a.len(),
        i <= b.len(),
        forall|k: int| 0 <= k < i ==> a[k] == b[k],
    ensures
        lex_le(a, b) == lex_le(a.skip(i), b.skip(i)),
    decreases i,
{
    if i == 0 {
        assert(a.skip(0) =~= a);
        assert(b.skip(0) =~= b);
    } else {
        assert(a[0] == b[0]);
        assert(a.len() > 0);
        let a1 = a.drop_first();
        let b1 = b.drop_first();
        assert(forall|k: int| 0 <= k < i - 1 ==> #[trigger] a1[k] == b1[k]);
        lemma_lex_le_common_prefix(a1, b1, i - 1);
        assert(a1.skip(i - 1) =~= a.skip(i));
        assert(b1.skip(i - 1) =~= b.skip(i));
    }
}

/// Is `a` lexicographically at or before `b`?
pub fn chars_le(a: &Vec<char>, b: &Vec<char>) -> (r: bool)
    ensures
        r == lex_le(a@, b@),
{
    let mut i: usize = 0;
    loop
        invariant
            i <= a@.len(),
            i <= b@.len(),
            a@.len() == a.len(),
            b@.len() == b.len(),
            forall|k: int| 0 <= k < i ==> a@[k] == b@[k],
        decreases a@.len() - i,
    {
        proof {
            lemma_lex_le_common_prefix(a@, b@, i as int);
        }
        if i == a.len() {
            proof {
                assert(a@.skip(i as int) =~= Seq::<char>::empty());
            }
            return true;
        }
        if i == b.len() {
            proof {
                assert(b@.skip(i as int) =~= Seq::<char>::empty());
                assert(a@.skip(i as int).len() > 0);
            }
            return false;
        }
        let ca = a[i];
        let cb = b[i];
        if ca != cb {
            proof {
                assert(a@.skip(i as int)[0] == ca);
                assert(b@.skip(i as int)[0] == cb);
            }
            return (ca as u32) < (cb as u32);
        }
        i = i + 1;
    }
}

/// What is left of `s` after removing every leading occurrence of `p`.
pub open spec fn strip_rep(s: Seq<char>, p: Seq<char>) -> Seq<char>
    decreases s.len(),
{
    if p.len() > 0 && has_prefix(s, p) {
        strip_rep(s.skip(p.len() as int), p)
    } else {
        s
    }
}

/// Removes every leading occurrence of `p` from `v`.
pub fn strip_prefix_rep(v: &Vec<char>, p: &str) -> (r: Vec<char>)
    ensures
        r@ == strip_rep(v@, p@),
{
    let m = p.unicode_len();
    if m == 0 {
        let r = tail_from(v, 0);
        proof {
            assert(r@ =~= v@);
        }
        return r;
    }
    let mut cur = tail_from(v, 0);
    proof {
        assert(cur@ =~= v@);
    }
    while starts_with_lit(&cur, p)
        invariant
            m == p@.len(),
            m > 0,
            strip_rep(cur@, p@) == strip_rep(v@, p@),
        decreases cur@.len(),
    {
        let ghost prev = cur@;
        cur = tail_from(&cur, m);
        proof {
            assert(has_prefix(prev, p@));
            assert(strip_rep(prev, p@) == strip_rep(prev.skip(m as int), p@));
        }
    }
    cur
}

/// Copies `v[from..]`.
pub fn tail_from(v: &Vec<char>, from: usize) -> (r: Vec<char>)
    requires
        from <= v@.len(),
    ensures
        r@ == v@.skip(from as int),
{
    let mut r: Vec<char> = Vec::new();
    let mut i: usize = from;
    while i < v.len()
        invariant
            from <= i <= v@.len(),
            r@ == v@.subrange(from as int, i as int),
        decreases v@.len() - i,
    {
        r.push(v[i]);
        i = i + 1;
        proof {
            assert(r@ =~= v@.subrange(from as int, i as int));
        }
    }
    proof {
        assert(r@ =~= v@.skip(from as int));
    }
    r
}

/// Copies `v[from..to]`.
pub fn slice_range(v: &Vec<char>, from: usize, to: usize) -> (r: Vec<char>)
    requires
        from <= to <= v@.len(),
    ensures
        r@ == v@.subrange(from as int, to as int),
{
    let mut r: Vec<char> = Vec::new();
    let mut i: usize = from;
    while i < to
        invariant
            from <= i <= to <= v@.len(),
            r@ == v@.subrange(from as int, i as int),
        decreases to - i,
    {
        r.push(v[i]);
        i = i + 1;
        proof {
            assert(r@ =~= v@.subrange(from as int, i as int));
        }
    }
    r
}

/// Lower-case folding for the Latin and Cyrillic letters the command phrases
/// use; every other character is kept as it is.
pub open spec fn fold_char_spec(c: char) -> char {
    match c {
        'A' => 'a',
        'B' => 'b',
        'C' => 'c',
        'D' => 'd',
        'E' => 'e',
        'F' => 'f',
        'G' => 'g',
        'H' => 'h',
        'I' => 'i',
        'J' => 'j',
        'K' => 'k',
        'L' => 'l',
        'M' => 'm',
        'N' => 'n',
        'O' => 'o',
        'P' => 'p',
        'Q' => 'q',
        'R' => 'r',
        'S' => 's',
        'T' => 't',
        'U' => 'u',
        'V' => 'v',
        'W' => 'w',
        'X' => 'x',
        'Y' => 'y',
        'Z' => 'z',
        'А' => 'а',
        'Б' => 'б',
        'В' => 'в',
        'Г' => 'г',
        'Д' => 'д',
        'Е' => 'е',
        'Ж' => 'ж',
        'З' => 'з',
        'И' => 'и',
        'Й' => 'й',
        'К' => 'к',
        'Л' => 'л',
        'М' => 'м',
        'Н' => 'н',
        'О' => 'о',
        'П' => 'п',
        'Р' => 'р',
        'С' => 'с',
        'Т' => 'т',
        'У' => 'у',
        'Ф' => 'ф',
        'Х' => 'х',
        'Ц' => 'ц',
        'Ч' => 'ч',
        'Ш' => 'ш',
        'Щ' => 'щ',
        'Ъ' => 'ъ',
        'Ы' => 'ы',
        'Ь' => 'ь',
        'Э' => 'э',
        'Ю' => 'ю',
        'Я' => 'я',
        'Ё' => 'ё',
        _ => c,
    }
}

/// Executable mirror of [`fold_char_spec`].
pub fn fold_char(c: char) -> (r: char)
    ensures
        r == fold_char_spec(c),
{
    match c {
        'A' => 'a',
        'B' => 'b',
        'C' => 'c',
        'D' => 'd',
        'E' => 'e',
        'F' => 'f',
        'G' => 'g',
        'H' => 'h',
        'I' => 'i',
        'J' => 'j',
        'K' => 'k',
        'L' => 'l',
        'M' => 'm',
        'N' => 'n',
        'O' => 'o',
        'P' => 'p',
        'Q' => 'q',
        'R' => 'r',
        'S' => 's',
        'T' => 't',
        'U' => 'u',
        'V' => 'v',
        'W' => 'w',
        'X' => 'x',
        'Y' => 'y',
        'Z' => 'z',
        'А' => 'а',
        'Б' => 'б',
        'В' => 'в',
        'Г' => 'г',
        'Д' => 'д',
        'Е' => 'е',
        'Ж' => 'ж',
        'З' => 'з',
        'И' => 'и',
        'Й' => 'й',
        'К' => 'к',
        'Л' => 'л',
        'М' => 'м',
        'Н' => 'н',
        'О' => 'о',
        'П' => 'п',
        'Р' => 'р',
        'С' => 'с',
        'Т' => 'т',
        'У' => 'у',
        'Ф' => 'ф',
        'Х' => 'х',
        'Ц' => 'ц',
        'Ч' => 'ч',
        'Ш' => 'ш',
        'Щ' => 'щ',
        'Ъ' => 'ъ',
        'Ы' => 'ы',
        'Ь' => 'ь',
        'Э' => 'э',
        'Ю' => 'ю',
        'Я' => 'я',
        'Ё' => 'ё',
        _ => c,
    }
}

/// `s` folded to lower case character by character.
pub open spec fn fold_seq(s: Seq<char>) -> Seq<char> {
    s.map_values(|c: char| fold_char_spec(c))
}

/// Input normalization: whitespace trimmed, letters folded to lower case.
pub open spec fn normalize_spec(s: Seq<char>) -> Seq<char> {
    fold_seq(trim_spec(s))
}

/// Folds every character of `v` to lower case.
pub fn fold_chars(v: &Vec<char>) -> (r: Vec<char>)
    ensures
        r@ == fold_seq(v@),
{
    let mut r: Vec<char> = Vec::new();
    let mut i: usize = 0;
    while i < v.len()
        invariant
            i <= v@.len(),
            v@.len() == v.len(),
            r@ == fold_seq(v@.take(i as int)),
        decreases v@.len() - i,
    {
        r.push(fold_char(v[i]));
        i = i + 1;
        proof {
            assert(r@ =~= fold_seq(v@.take(i as int)));
        }
    }
    proof {
        assert(r@ =~= fold_seq(v@));
    }
    r
}

/// Trims and folds a raw input line.
pub fn normalize(s: &str) -> (r: Vec<char>)
    ensures
        r@ == normalize_spec(s@),
{
    fold_chars(&trim_chars(&to_chars(s)))
}

/// The fields of `s` around every occurrence of `sep`: always one more
/// field than separators, and empty fields are kept.
pub open spec fn split_char_spec(s: Seq<char>, sep: char) -> Seq<Seq<char>>
    decreases s.len(),
{
    if s.len() == 0 {
        seq![Seq::<char>::empty()]
    } else if s[0] == sep {
        seq![Seq::<char>::empty()] + split_char_spec(s.drop_first(), sep)
    } else {
        let rest = split_char_spec(s.drop_first(), sep);
        seq![seq![s[0]] + rest[0]] + rest.skip(1)
    }
}

/// A split always yields at least one field.
pub proof fn lemma_split_char_nonempty(s: Seq<char>, sep: char)
    ensures
        split_char_spec(s, sep).len() >= 1,
    decreases s.len(),
{
    if s.len() == 0 {
    } else {
        lemma_split_char_nonempty(s.drop_first(), sep);
    }
}

/// Splits `v` around every occurrence of `sep`.
pub fn split_char(v: &Vec<char>, sep: char) -> (r: Vec<String>)
    ensures
        r.deep_view() == split_char_spec(v@, sep),
{
    let ghost whole = split_char_spec(v@, sep);
    let n = v.len();
    let mut done: Vec<String> = Vec::new();
    let mut cur = String::new();
    let mut i: usize = 0;
    proof {
        assert(v@.skip(0) =~= v@);
        lemma_split_char_nonempty(v@, sep);
        assert(whole =~= Seq::<Seq<char>>::empty() + (seq![
            Seq::<char>::empty() + whole[0],
        ] + whole.skip(1)));
        assert(done.deep_view() =~= Seq::<Seq<char>>::empty());
        assert(Seq::<char>::empty() + whole[0] =~= whole[0]);
    }
    while i < n
        invariant
            n == v@.len(),
            n == v.len(),
            i <= n,
            whole == split_char_spec(v@, sep),
            whole == done.deep_view() + (seq![
                cur@ + split_char_spec(v@.skip(i as int), sep)[0],
            ] + split_char_spec(v@.skip(i as int), sep).skip(1)),
        decreases n - i,
    {
        let ghost rem = v@.skip(i as int);
        let ghost rem2 = v@.skip(i + 1);
        let ghost cur0 = cur@;
        proof {
            assert(rem.len() > 0);
            assert(rem.drop_first() =~= rem2);
            lemma_split_char_nonempty(rem2, sep);
        }
        let c = v[i];
        if c == sep {
            let ghost done0 = done.deep_view();
            done.push(cur);
            cur = String::new();
            proof {
                assert(split_char_spec(rem, sep) == seq![Seq::<char>::empty()] + split_char_spec(
                    rem2,
                    sep,
                ));
                assert(split_char_spec(rem, sep)[0] =~= Seq::<char>::empty());
                assert(split_char_spec(rem, sep).skip(1) =~= split_char_spec(rem2, sep));
                assert forall|k: int| 0 <= k < done.deep_view().len() implies done.deep_view()[k]
                    == done0.push(cur0)[k] by {
                    if k < done0.len() {
                        assert(done.deep_view()[k] == done0[k]);
                    }
                }
                assert(done.deep_view() =~= done0.push(cur0));
                assert(split_char_spec(rem2, sep) =~= seq![split_char_spec(rem2, sep)[0]]
                    + split_char_spec(rem2, sep).skip(1));
                assert(cur@ =~= Seq::<char>::empty());
                assert(whole =~= done.deep_view() + (seq![
                    cur@ + split_char_spec(rem2, sep)[0],
                ] + split_char_spec(rem2, sep).skip(1)));
            }
        } else {
            push_char(&mut cur, c);
            proof {
                assert(split_char_spec(rem, sep) == seq![seq![rem[0]] + split_char_spec(
                    rem2,
                    sep,
                )[0]] + split_char_spec(rem2, sep).skip(1));
                assert(split_char_spec(rem, sep)[0] =~= seq![c] + split_char_spec(rem2, sep)[0]);
                assert(split_char_spec(rem, sep).skip(1) =~= split_char_spec(rem2, sep).skip(1));
                assert(cur@ + split_char_spec(rem2, sep)[0] =~= cur0 + split_char_spec(
                    rem,
                    sep,
                )[0]);
                assert(whole =~= done.deep_view() + (seq![
                    cur@ + split_char_spec(rem2, sep)[0],
                ] + split_char_spec(rem2, sep).skip(1)));
            }
        }
        i = i + 1;
    }
    let ghost done0 = done.deep_view();
    let ghost cur0 = cur@;
    done.push(cur);
    proof {
        assert(v@.skip(n as int) =~= Seq::<char>::empty());
        assert(split_char_spec(Seq::<char>::empty(), sep)[0] =~= Seq::<char>::empty());
        assert(split_char_spec(Seq::<char>::empty(), sep).skip(1) =~= Seq::<Seq<char>>::empty());
        assert(cur0 + Seq::<char>::empty() =~= cur0);
        assert forall|k: int| 0 <= k < done.deep_view().len() implies done.deep_view()[k]
            == done0.push(cur0)[k] by {
            if k < done0.len() {
                assert(done.deep_view()[k] == done0[k]);
            }
        }
        assert(done.deep_view() =~= done0.push(cur0));
        assert(done0.push(cur0) =~= done0 + (seq![cur0 + Seq::<char>::empty()] + Seq::<
            Seq<char>,
        >::empty()));
    }
    done
}

/// The fields of `s` around every whitespace character; empty fields are
/// kept, so every whitespace run of length `k` yields `k - 1` empty fields.
pub open spec fn split_ws_spec(s: Seq<char>) -> Seq<Seq<char>>
    decreases s.len(),
{
    if s.len() == 0 {
        seq![Seq::<char>::empty()]
    } else if is_space_char(s[0]) {
        seq![Seq::<char>::empty()] + split_ws_spec(s.drop_first())
    } else {
        let rest = split_ws_spec(s.drop_first());
        seq![seq![s[0]] + rest[0]] + rest.skip(1)
    }
}

/// A whitespace split always yields at least one field.
pub proof fn lemma_split_ws_nonempty(s: Seq<char>)
    ensures
        split_ws_spec(s).len() >= 1,
    decreases s.len(),
{
    if s.len() == 0 {
    } else {
        lemma_split_ws_nonempty(s.drop_first());
    }
}

/// The whitespace-separated words of `s`, in order.
pub open spec fn ws_tokens(s: Seq<char>) -> Seq<Seq<char>> {
    split_ws_spec(s).filter(|t: Seq<char>| t.len() > 0)
}

/// Splits `v` around every whitespace character.
fn split_ws_fields(v: &Vec<char>) -> (r: Vec<String>)
    ensures
        r.deep_view() == split_ws_spec(v@),
{
    let ghost whole = split_ws_spec(v@);
    let n = v.len();
    let mut done: Vec<String> = Vec::new();
    let mut cur = String::new();
    let mut i: usize = 0;
    proof {
        assert(v@.skip(0) =~= v@);
        lemma_split_ws_nonempty(v@);
        assert(whole =~= Seq::<Seq<char>>::empty() + (seq![
            Seq::<char>::empty() + whole[0],
        ] + whole.skip(1)));
        assert(done.deep_view() =~= Seq::<Seq<char>>::empty());
        assert(Seq::<char>::empty() + whole[0] =~= whole[0]);
    }
    while i < n
        invariant
            n == v@.len(),
            n == v.len(),
            i <= n,
            whole == split_ws_spec(v@),
            whole == done.deep_view() + (seq![
                cur@ + split_ws_spec(v@.skip(i as int))[0],
            ] + split_ws_spec(v@.skip(i as int)).skip(1)),
        decreases n - i,
    {
        let ghost rem = v@.skip(i as int);
        let ghost rem2 = v@.skip(i + 1);
        let ghost cur0 = cur@;
        proof {
            assert(rem.len() > 0);
            assert(rem.drop_first() =~= rem2);
            lemma_split_ws_nonempty(rem2);
        }
        let c = v[i];
        if is_space(c) {
            let ghost done0 = done.deep_view();
            done.push(cur);
            cur = String::new();
            proof {
                assert(split_ws_spec(rem) == seq![Seq::<char>::empty()] + split_ws_spec(rem2));
                assert(split_ws_spec(rem)[0] =~= Seq::<char>::empty());
                assert(split_ws_spec(rem).skip(1) =~= split_ws_spec(rem2));
                assert forall|k: int| 0 <= k < done.deep_view().len() implies done.deep_view()[k]
                    == done0.push(cur0)[k] by {
                    if k < done0.len() {
                        assert(done.deep_view()[k] == done0[k]);
                    }
                }
                assert(done.deep_view() =~= done0.push(cur0));
                assert(split_ws_spec(rem2) =~= seq![split_ws_spec(rem2)[0]] + split_ws_spec(
                    rem2,
                ).skip(1));
                assert(cur@ =~= Seq::<char>::empty());
                assert(whole =~= done.deep_view() + (seq![
                    cur@ + split_ws_spec(rem2)[0],
                ] + split_ws_spec(rem2).skip(1)));
            }
        } else {
            push_char(&mut cur, c);
            proof {
                assert(split_ws_spec(rem) == seq![seq![rem[0]] + split_ws_spec(rem2)[0]]
                    + split_ws_spec(rem2).skip(1));
                assert(split_ws_spec(rem)[0] =~= seq![c] + split_ws_spec(rem2)[0]);
                assert(split_ws_spec(rem).skip(1) =~= split_ws_spec(rem2).skip(1));
                assert(cur@ + split_ws_spec(rem2)[0] =~= cur0 + split_ws_spec(rem)[0]);
                assert(whole =~= done.deep_view() + (seq![
                    cur@ + split_ws_spec(rem2)[0],
                ] + split_ws_spec(rem2).skip(1)));
            }
        }
        i = i + 1;
    }
    let ghost done0 = done.deep_view();
    let ghost cur0 = cur@;
    done.push(cur);
    proof {
        assert(v@.skip(n as int) =~= Seq::<char>::empty());
        assert(split_ws_spec(Seq::<char>::empty())[0] =~= Seq::<char>::empty());
        assert(split_ws_spec(Seq::<char>::empty()).skip(1) =~= Seq::<Seq<char>>::empty());
        assert(cur0 + Seq::<char>::empty() =~= cur0);
        assert forall|k: int| 0 <= k < done.deep_view().len() implies done.deep_view()[k]
            == done0.push(cur0)[k] by {
            if k < done0.len() {
                assert(done.deep_view()[k] == done0[k]);
            }
        }
        assert(done.deep_view() =~= done0.push(cur0));
        assert(done0.push(cur0) =~= done0 + (seq![cur0 + Seq::<char>::empty()] + Seq::<
            Seq<char>,
        >::empty()));
    }
    done
}

/// The whitespace-separated words of `v`, in order.
pub fn words(v: &Vec<char>) -> (r: Vec<String>)
    ensures
        r.deep_view() == ws_tokens(v@),
{
    let fields = split_ws_fields(v);
    let ghost pred = |t: Seq<char>| t.len() > 0;
    let ghost fv = fields.deep_view();
    let mut out: Vec<String> = Vec::new();
    let mut i: usize = 0;
    proof {
        assert(fv.take(0) =~= Seq::<Seq<char>>::empty());
        reveal(Seq::filter);
        assert(out.deep_view() =~= fv.take(0).filter(pred));
    }
    while i < fields.len()
        invariant
            fv == fields.deep_view(),
            fv.len() == fields@.len(),
            i <= fv.len(),
            pred == (|t: Seq<char>| t.len() > 0),
            out.deep_view() == fv.take(i as int).filter(pred),
        decreases fv.len() - i,
    {
        let keep = fields[i].as_str().unicode_len() > 0;
        proof {
            reveal(Seq::filter);
            assert(fv.take(i + 1).drop_last() =~= fv.take(i as int));
            assert(fv.take(i + 1).last() == fv[i as int]);
        }
        if keep {
            let ghost before = out.deep_view();
            out.push(fields[i].clone());
            proof {
                assert forall|k: int| 0 <= k < out.deep_view().len() implies out.deep_view()[k]
                    == before.push(fv[i as int])[k] by {
                    if k < before.len() {
                        assert(out.deep_view()[k] == before[k]);
                    }
                }
                assert(out.deep_view() =~= before.push(fv[i as int]));
                assert(out.deep_view() =~= fv.take(i + 1).filter(pred));
            }
        } else {
            proof {
                assert(out.deep_view() =~= fv.take(i + 1).filter(pred));
            }
        }
        i = i + 1;
    }
    proof {
        assert(fv.take(fv.len() as int) =~= fv);
    }
    out
}

/// The decimal digit characters of `n`, most significant first.
pub open spec fn dec_digits(n: nat) -> Seq<char>
    decreases n,
{
    if n < 10 {
        seq![digit_char(n)]
    } else {
        dec_digits(n / 10).push(digit_char(n % 10))
    }
}

/// The character for one decimal digit.
pub open spec fn digit_char(d: nat) -> char {
    if d == 0 { '0' }
    else if d == 1 { '1' }
    else if d == 2 { '2' }
    else if d == 3 { '3' }
    else if d == 4 { '4' }
    else if d == 5 { '5' }
    else if d == 6 { '6' }
    else if d == 7 { '7' }
    else if d == 8 { '8' }
    else { '9' }
}

/// Executable mirror of [`digit_char`].
fn digit_of(d: u64) -> (r: char)
    requires
        d < 10,
    ensures
        r == digit_char(d as nat),
{
    if d == 0 { '0' }
    else if d == 1 { '1' }
    else if d == 2 { '2' }
    else if d == 3 { '3' }
    else if d == 4 { '4' }
    else if d == 5 { '5' }
    else if d == 6 { '6' }
    else if d == 7 { '7' }
    else if d == 8 { '8' }
    else { '9' }
}

/// Renders `n` in decimal.
pub fn u64_to_string(n: u64) -> (s: String)
    ensures
        s@ == dec_digits(n as nat),
    decreases n,
{
    if n < 10 {
        let mut s = String::new();
        push_char(&mut s, digit_of(n));
        s
    } else {
        let mut s = u64_to_string(n / 10);
        push_char(&mut s, digit_of(n % 10));
        s
    }
}


} // verus!
