//! Title-based file naming: choosing a title with its fallback chain,
//! boiling a title down to a concise file name, and suffixing
//! duplicate names so every file in a batch gets a distinct one.
//! Works on plain character sequences; reading titles and page text
//! out of a document, and renaming files, stay with the caller.

use vstd::prelude::*;

use crate::utils::spec_decimal;

verus! {

/// What std's `char::is_alphanumeric` returns: a function of the
/// character alone.
pub uninterp spec fn spec_is_alphanumeric(c: char) -> bool;

/// Relies on std's `char::is_alphanumeric`; the result depends on the
/// character alone.
pub assume_specification[ char::is_alphanumeric ](c: char) -> (r: bool)
    ensures
        r == spec_is_alphanumeric(c),
;

/// What std's `char::is_whitespace` returns: a function of the
/// character alone.
pub uninterp spec fn spec_is_whitespace(c: char) -> bool;

/// Relies on std's `char::is_whitespace`; the result depends on the
/// character alone.
pub assume_specification[ char::is_whitespace ](c: char) -> (r: bool)
    ensures
        r == spec_is_whitespace(c),
;

/// The pattern stands in `s` at offset `i`.
pub open spec fn spec_occurs_at(s: Seq<char>, pat: Seq<char>, i: int) -> bool {
    0 <= i && i + pat.len() <= s.len() && s.subrange(i, i + pat.len()) == pat
}

/// The first offset at or after `i` where the pattern stands, if any.
pub open spec fn spec_find(s: Seq<char>, pat: Seq<char>, i: int) -> Option<int>
    recommends
        0 <= i,
    decreases s.len() - i + 1,
{
    if i < 0 {
        None
    } else if i + pat.len() > s.len() {
        None
    } else if spec_occurs_at(s, pat, i) {
        Some(i)
    } else {
        spec_find(s, pat, i + 1)
    }
}

/// A match at `i` with no earlier match from `k` on pins `spec_find`
/// down.
proof fn lemma_find_hits(s: Seq<char>, pat: Seq<char>, k: int, i: int)
    requires
        0 <= k <= i,
        spec_occurs_at(s, pat, i),
        forall|j: int| k <= j < i ==> !spec_occurs_at(s, pat, j),
    ensures
        spec_find(s, pat, k) == Some(i),
    decreases i - k,
{
    if k < i {
        lemma_find_hits(s, pat, k + 1, i);
    }
}

/// No match from `k` on means `spec_find` misses.
proof fn lemma_find_misses(s: Seq<char>, pat: Seq<char>, k: int)
    requires
        0 <= k,
        forall|j: int| k <= j ==> !spec_occurs_at(s, pat, j),
    ensures
        spec_find(s, pat, k) is None,
    decreases s.len() - k + 1,
{
    if k + pat.len() <= s.len() {
        lemma_find_misses(s, pat, k + 1);
    }
}

/// Compare two character slices for equality.
pub fn chars_eq(a: &[char], b: &[char]) -> (r: bool)
    ensures
        r == (a@ == b@),
{
    if a.len() != b.len() {
        return false;
    }
    let n = a.len();
    let mut i: usize = 0;
    while i < n
        invariant
            n == a@.len(),
            n == b@.len(),
            i <= n,
            forall|j: int| 0 <= j < i ==> a@[j] == b@[j],
        decreases n - i,
    {
        if a[i] != b[i] {
            return false;
        }
        i += 1;
    }
    proof {
        assert(a@ =~= b@);
    }
    true
}

/// Does the pattern stand in `s` at offset `at`?
fn match_at(s: &Vec<char>, pat: &Vec<char>, at: usize) -> (r: bool)
    requires
        at + pat@.len() <= s@.len(),
    ensures
        r == spec_occurs_at(s@, pat@, at as int),
{
    let m = pat.len();
    let n = s.len();
    let mut j: usize = 0;
    while j < m
        invariant
            m == pat@.len(),
            n == s@.len(),
            at + m <= n,
            j <= m,
            forall|x: int| 0 <= x < j ==> s@[at + x] == pat@[x],
        decreases m - j,
    {
        proof {
            assert(at + j < s@.len());
        }
        if s[at + j] != pat[j] {
            proof {
                assert(s@.subrange(at as int, at as int + m) != pat@) by {
                    assert(s@.subrange(at as int, at as int + m)[j as int] == s@[at + j]);
                }
            }
            return false;
        }
        j += 1;
    }
    proof {
        assert(s@.subrange(at as int, at as int + m) =~= pat@);
    }
    true
}

/// Find the earliest offset where the pattern stands in `s`.
pub fn find_pattern(s: &Vec<char>, pat: &Vec<char>) -> (r: Option<usize>)
    ensures
        match r {
            Some(i) => spec_find(s@, pat@, 0) == Some(i as int),
            None => spec_find(s@, pat@, 0) is None,
        },
{
    let n = s.len();
    let m = pat.len();
    if m > n {
        proof {
            assert(forall|j: int| !spec_occurs_at(s@, pat@, j));
            lemma_find_misses(s@, pat@, 0);
        }
        return None;
    }
    if m == 0 {
        proof {
            assert(s@.subrange(0, 0) =~= pat@);
            assert(spec_occurs_at(s@, pat@, 0));
            lemma_find_hits(s@, pat@, 0, 0);
        }
        return Some(0);
    }
    let mut i: usize = 0;
    while i <= n - m
        invariant
            n == s@.len(),
            m == pat@.len(),
            1 <= m <= n,
            i <= n - m + 1,
            forall|j: int| 0 <= j < i ==> !spec_occurs_at(s@, pat@, j),
        decreases n - i,
    {
        if match_at(s, pat, i) {
            proof {
                lemma_find_hits(s@, pat@, 0, i as int);
            }
            return Some(i);
        }
        i += 1;
    }
    proof {
        assert forall|j: int| !spec_occurs_at(s@, pat@, j) by {
            if spec_occurs_at(s@, pat@, j) {
                assert(j + m <= n);
                assert(j >= i);
                assert(false);
            }
        }
        lemma_find_misses(s@, pat@, 0);
    }
    None
}

/// At most the first `n` elements of a sequence.
pub open spec fn spec_truncate(s: Seq<char>, n: int) -> Seq<char> {
    if s.len() <= n {
        s
    } else {
        s.take(n)
    }
}

/// Copy out at most the first `n` characters.
pub fn take_prefix(s: &Vec<char>, n: usize) -> (r: Vec<char>)
    ensures
        r@ == spec_truncate(s@, n as int),
{
    let end = if n < s.len() {
        n
    } else {
        s.len()
    };
    let mut r: Vec<char> = Vec::new();
    let mut i: usize = 0;
    while i < end
        invariant
            end <= s@.len(),
            i <= end,
            r@ == s@.take(end as int).take(i as int),
        decreases end - i,
    {
        r.push(s[i]);
        proof {
            assert(s@.take(end as int).take(i as int) + seq![s@[i as int]] =~= s@.take(
                end as int,
            ).take(i as int + 1));
        }
        i += 1;
    }
    proof {
        assert(s@.take(end as int).take(end as int) =~= s@.take(end as int));
        if s@.len() <= n {
            assert(s@.take(end as int) =~= s@);
        }
    }
    r
}

/// The sequence with leading whitespace dropped.
pub open spec fn spec_trim_start(s: Seq<char>) -> Seq<char>
    decreases s.len(),
{
    if s.len() > 0 && spec_is_whitespace(s.first()) {
        spec_trim_start(s.drop_first())
    } else {
        s
    }
}

/// The sequence with trailing whitespace dropped.
pub open spec fn spec_trim_end(s: Seq<char>) -> Seq<char>
    decreases s.len(),
{
    if s.len() > 0 && spec_is_whitespace(s.last()) {
        spec_trim_end(s.drop_last())
    } else {
        s
    }
}

/// The sequence with whitespace dropped at both ends.
pub open spec fn spec_trim(s: Seq<char>) -> Seq<char> {
    spec_trim_end(spec_trim_start(s))
}

/// Copy out the sequence with whitespace dropped at both ends.
pub fn trim_chars(s: &Vec<char>) -> (r: Vec<char>)
    ensures
        r@ == spec_trim(s@),
{
    let n = s.len();
    proof {
        assert(s@.skip(0) =~= s@);
    }
    let mut a: usize = 0;
    while a < n && s[a].is_whitespace()
        invariant
            n == s@.len(),
            a <= n,
            spec_trim_start(s@) == spec_trim_start(s@.skip(a as int)),
        decreases n - a,
    {
        proof {
            assert(s@.skip(a as int).first() == s@[a as int]);
            assert(s@.skip(a as int).drop_first() =~= s@.skip(a as int + 1));
        }
        a += 1;
    }
    proof {
        assert(spec_trim_start(s@) == s@.skip(a as int)) by {
            if a < n {
                assert(s@.skip(a as int).first() == s@[a as int]);
            }
        }
    }
    let mut b: usize = n;
    while b > a && s[b - 1].is_whitespace()
        invariant
            n == s@.len(),
            a <= b <= n,
            spec_trim_start(s@) == s@.skip(a as int),
            spec_trim_end(s@.subrange(a as int, n as int)) == spec_trim_end(
                s@.subrange(a as int, b as int),
            ),
        decreases b,
    {
        proof {
            assert(s@.subrange(a as int, b as int).last() == s@[b - 1]);
            assert(s@.subrange(a as int, b as int).drop_last() =~= s@.subrange(
                a as int,
                b as int - 1,
            ));
        }
        b -= 1;
    }
    proof {
        assert(spec_trim_end(s@.subrange(a as int, b as int)) == s@.subrange(a as int, b as int))
            by {
            if b > a {
                assert(s@.subrange(a as int, b as int).last() == s@[b - 1]);
            }
        }
        assert(s@.skip(a as int) =~= s@.subrange(a as int, n as int));
    }
    let mut r: Vec<char> = Vec::new();
    let mut i: usize = a;
    while i < b
        invariant
            a <= i <= b <= n,
            n == s@.len(),
            r@ == s@.subrange(a as int, i as int),
        decreases b - i,
    {
        r.push(s[i]);
        proof {
            assert(s@.subrange(a as int, i as int) + seq![s@[i as int]] =~= s@.subrange(
                a as int,
                i as int + 1,
            ));
        }
        i += 1;
    }
    proof {
        assert(r@ == spec_trim(s@));
    }
    r
}

/// A character kept as it is by the sanitizer: alphanumeric, space,
/// dash or underscore; everything else becomes an underscore.
pub open spec fn spec_keep_char(c: char) -> bool {
    spec_is_alphanumeric(c) || c == ' ' || c == '-' || c == '_'
}

/// The sanitized sequence, character for character.
pub open spec fn spec_sanitize(s: Seq<char>) -> Seq<char> {
    s.map_values(
        |c: char|
            if spec_keep_char(c) {
                c
            } else {
                '_'
            },
    )
}

/// Replace every character the sanitizer rejects with an underscore.
pub fn sanitize_chars(s: &Vec<char>) -> (r: Vec<char>)
    ensures
        r@ == spec_sanitize(s@),
{
    let n = s.len();
    let mut r: Vec<char> = Vec::new();
    let mut i: usize = 0;
    while i < n
        invariant
            n == s@.len(),
            i <= n,
            r@ == spec_sanitize(s@.take(i as int)),
        decreases n - i,
    {
        let c = s[i];
        let keep = c.is_alphanumeric() || c == ' ' || c == '-' || c == '_';
        if keep {
            r.push(c);
        } else {
            r.push('_');
        }
        proof {
            assert(spec_sanitize(s@.take(i as int)) + seq![
                if spec_keep_char(s@[i as int]) {
                    s@[i as int]
                } else {
                    '_'
                },
            ] =~= spec_sanitize(s@.take(i as int + 1)));
        }
        i += 1;
    }
    proof {
        assert(s@.take(n as int) =~= s@);
    }
    r
}

/// The separator `" - "`.
pub open spec fn spec_sep_dash() -> Seq<char> {
    seq![' ', '-', ' ']
}

/// The separator `" by "`.
pub open spec fn spec_sep_by() -> Seq<char> {
    seq![' ', 'b', 'y', ' ']
}

/// The separator `" _by "`.
pub open spec fn spec_sep_space_uby() -> Seq<char> {
    seq![' ', '_', 'b', 'y', ' ']
}

/// The separator `"_by "`.
pub open spec fn spec_sep_uby() -> Seq<char> {
    seq!['_', 'b', 'y', ' ']
}

fn sep_dash() -> (r: Vec<char>)
    ensures
        r@ == spec_sep_dash(),
{
    let mut v: Vec<char> = Vec::new();
    v.push(' ');
    v.push('-');
    v.push(' ');
    proof {
        assert(v@ =~= spec_sep_dash());
    }
    v
}

fn sep_by() -> (r: Vec<char>)
    ensures
        r@ == spec_sep_by(),
{
    let mut v: Vec<char> = Vec::new();
    v.push(' ');
    v.push('b');
    v.push('y');
    v.push(' ');
    proof {
        assert(v@ =~= spec_sep_by());
    }
    v
}

fn sep_space_uby() -> (r: Vec<char>)
    ensures
        r@ == spec_sep_space_uby(),
{
    let mut v: Vec<char> = Vec::new();
    v.push(' ');
    v.push('_');
    v.push('b');
    v.push('y');
    v.push(' ');
    proof {
        assert(v@ =~= spec_sep_space_uby());
    }
    v
}

fn sep_uby() -> (r: Vec<char>)
    ensures
        r@ == spec_sep_uby(),
{
    let mut v: Vec<char> = Vec::new();
    v.push('_');
    v.push('b');
    v.push('y');
    v.push(' ');
    proof {
        assert(v@ =~= spec_sep_uby());
    }
    v
}

/// The title cut before the first separator found, trying the
/// separators in a fixed priority order.
pub open spec fn spec_cut_at_separator(s: Seq<char>) -> Seq<char> {
    match spec_find(s, spec_sep_dash(), 0) {
        Some(i) => s.take(i),
        None => match spec_find(s, spec_sep_by(), 0) {
            Some(i) => s.take(i),
            None => match spec_find(s, spec_sep_space_uby(), 0) {
                Some(i) => s.take(i),
                None => match spec_find(s, spec_sep_uby(), 0) {
                    Some(i) => s.take(i),
                    None => s,
                },
            },
        },
    }
}

/// `spec_find` only returns offsets inside the sequence.
proof fn lemma_find_in_range(s: Seq<char>, pat: Seq<char>, k: int)
    requires
        0 <= k,
    ensures
        spec_find(s, pat, k) matches Some(i) ==> k <= i && i + pat.len() <= s.len(),
    decreases s.len() - k + 1,
{
    if k + pat.len() <= s.len() && !spec_occurs_at(s, pat, k) {
        lemma_find_in_range(s, pat, k + 1);
    }
}

/// Cut the title before the first separator found.
fn cut_at_separator(s: &Vec<char>) -> (r: Vec<char>)
    ensures
        r@ == spec_cut_at_separator(s@),
{
    let sep1 = sep_dash();
    match find_pattern(s, &sep1) {
        Some(i) => {
            proof {
                lemma_find_in_range(s@, spec_sep_dash(), 0);
                assert(spec_truncate(s@, i as int) =~= s@.take(i as int));
            }
            return take_prefix(s, i);
        },
        None => {},
    }
    let sep2 = sep_by();
    match find_pattern(s, &sep2) {
        Some(i) => {
            proof {
                lemma_find_in_range(s@, spec_sep_by(), 0);
                assert(spec_truncate(s@, i as int) =~= s@.take(i as int));
            }
            return take_prefix(s, i);
        },
        None => {},
    }
    let sep3 = sep_space_uby();
    match find_pattern(s, &sep3) {
        Some(i) => {
            proof {
                lemma_find_in_range(s@, spec_sep_space_uby(), 0);
                assert(spec_truncate(s@, i as int) =~= s@.take(i as int));
            }
            return take_prefix(s, i);
        },
        None => {},
    }
    let sep4 = sep_uby();
    match find_pattern(s, &sep4) {
        Some(i) => {
            proof {
                lemma_find_in_range(s@, spec_sep_uby(), 0);
                assert(spec_truncate(s@, i as int) =~= s@.take(i as int));
            }
            return take_prefix(s, i);
        },
        None => {},
    }
    take_prefix(s, s.len())
}

/// The concise file name a title boils down to: at most 100
/// characters, cut before the first separator, every rejected
/// character replaced by an underscore, trimmed.
pub open spec fn spec_concise_filename(name: Seq<char>) -> Seq<char> {
    spec_trim(spec_truncate(spec_sanitize(spec_cut_at_separator(spec_truncate(name, 100))), 100))
}

/// Boil a title down to a concise file name.
pub fn make_concise_filename(name: &Vec<char>) -> (r: Vec<char>)
    ensures
        r@ == spec_concise_filename(name@),
{
    let clipped = take_prefix(name, 100);
    let cut = cut_at_separator(&clipped);
    let clean = sanitize_chars(&cut);
    let clipped_again = take_prefix(&clean, 100);
    trim_chars(&clipped_again)
}

/// The title `"Untitled"` used when nothing better is available.
pub open spec fn spec_untitled() -> Seq<char> {
    "Untitled"@
}

fn untitled() -> (r: Vec<char>)
    ensures
        r@ == spec_untitled(),
{
    let mut v: Vec<char> = Vec::new();
    v.push('U');
    v.push('n');
    v.push('t');
    v.push('i');
    v.push('t');
    v.push('l');
    v.push('e');
    v.push('d');
    proof {
        reveal_strlit("Untitled");
        assert(v@ =~= "Untitled"@);
    }
    v
}

/// The chosen title: the metadata title when it is not blank, else the
/// trimmed page text when that is not blank, else `"Untitled"`.
pub open spec fn spec_choose_title(
    metadata_title: Option<Vec<char>>,
    page_text: Option<Vec<char>>,
) -> Seq<char> {
    match metadata_title {
        Some(t) => if spec_trim(t@).len() > 0 {
            t@
        } else {
            spec_title_fallback(page_text)
        },
        None => spec_title_fallback(page_text),
    }
}

/// The fallback when the metadata title is blank or absent.
pub open spec fn spec_title_fallback(page_text: Option<Vec<char>>) -> Seq<char> {
    match page_text {
        Some(t) => if spec_trim(t@).len() > 0 {
            spec_trim(t@)
        } else {
            spec_untitled()
        },
        None => spec_untitled(),
    }
}

/// Choose the title for a file: metadata first, extracted page text
/// second, `"Untitled"` last.  Blankness means nothing but whitespace.
pub fn choose_title(metadata_title: Option<Vec<char>>, page_text: Option<Vec<char>>) -> (r: Vec<
    char,
>)
    ensures
        r@ == spec_choose_title(metadata_title, page_text),
{
    match metadata_title {
        Some(t) => {
            let trimmed = trim_chars(&t);
            if trimmed.len() > 0 {
                return t;
            }
        },
        None => {},
    }
    match page_text {
        Some(t) => {
            let trimmed = trim_chars(&t);
            if trimmed.len() > 0 {
                return trimmed;
            }
        },
        None => {},
    }
    untitled()
}


/// The views of a list of character vectors.
pub open spec fn spec_views(l: Seq<Vec<char>>) -> Seq<Seq<char>> {
    l.map_values(|v: Vec<char>| v@)
}

/// How many entries of `l` equal `x`.
pub open spec fn spec_count_occurrences(l: Seq<Seq<char>>, x: Seq<char>) -> int
    decreases l.len(),
{
    if l.len() == 0 {
        0
    } else {
        spec_count_occurrences(l.drop_last(), x) + if l.last() == x {
            1int
        } else {
            0int
        }
    }
}

/// Extending a prefix by one entry adds its contribution to the count.
proof fn lemma_count_occurrences_take_step(l: Seq<Seq<char>>, x: Seq<char>, i: int)
    requires
        0 <= i < l.len(),
    ensures
        spec_count_occurrences(l.take(i + 1), x) == spec_count_occurrences(l.take(i), x) + if l[i]
            == x {
            1int
        } else {
            0int
        },
{
    assert(l.take(i + 1).drop_last() =~= l.take(i));
    assert(l.take(i + 1).last() == l[i]);
}

/// The last dot of `name` at an offset of one or more, searching down
/// from `i`.  Offset zero is excluded, as for a hidden file's name.
pub open spec fn spec_rfind_dot(s: Seq<char>, i: int) -> Option<int>
    recommends
        i < s.len(),
    decreases i + 1,
{
    if i < 1 {
        None
    } else if s[i] == '.' {
        Some(i)
    } else {
        spec_rfind_dot(s, i - 1)
    }
}

/// A found dot lies inside the searched range.
proof fn lemma_rfind_dot_range(s: Seq<char>, i: int)
    ensures
        spec_rfind_dot(s, i) matches Some(p) ==> 1 <= p <= i,
    decreases i + 1,
{
    if i >= 1 && s[i] != '.' {
        lemma_rfind_dot_range(s, i - 1);
    }
}

/// `name` with `_k` spliced in before its extension: `a.pdf` becomes
/// `a_k.pdf`; a name without a dot (past its first character) gets the
/// suffix at its end.
pub open spec fn spec_renamed(name: Seq<char>, k: int) -> Seq<char> {
    match spec_rfind_dot(name, name.len() - 1) {
        Some(p) => name.take(p) + seq!['_'] + spec_decimal(k) + seq!['.'] + name.skip(p + 1),
        None => name + seq!['_'] + spec_decimal(k),
    }
}

/// Copy a range of characters onto the end of `r`.
fn push_range(r: &mut Vec<char>, src: &Vec<char>, from: usize, to: usize)
    requires
        from <= to <= src@.len(),
    ensures
        final(r)@ == old(r)@ + src@.subrange(from as int, to as int),
{
    let mut i: usize = from;
    while i < to
        invariant
            from <= i <= to <= src@.len(),
            r@ == old(r)@ + src@.subrange(from as int, i as int),
        decreases to - i,
    {
        r.push(src[i]);
        proof {
            assert(old(r)@ + src@.subrange(from as int, i as int) + seq![src@[i as int]] =~= old(
                r,
            )@ + src@.subrange(from as int, i as int + 1));
        }
        i += 1;
    }
}

/// Copy all of `src` onto the end of `r`.
fn push_all(r: &mut Vec<char>, src: &Vec<char>)
    ensures
        final(r)@ == old(r)@ + src@,
{
    push_range(r, src, 0, src.len());
    proof {
        assert(src@.subrange(0, src@.len() as int) =~= src@);
    }
}

/// Copy a character vector.
fn clone_chars(v: &Vec<char>) -> (r: Vec<char>)
    ensures
        r@ == v@,
{
    let mut r: Vec<char> = Vec::new();
    push_all(&mut r, v);
    proof {
        assert(Seq::<char>::empty() + v@ =~= v@);
    }
    r
}

/// Find the last dot of `name` past its first character.
fn rfind_dot(name: &Vec<char>) -> (r: Option<usize>)
    ensures
        match r {
            Some(p) => spec_rfind_dot(name@, name@.len() - 1) == Some(p as int),
            None => spec_rfind_dot(name@, name@.len() - 1) is None,
        },
{
    let n = name.len();
    if n == 0 {
        return None;
    }
    let mut i: usize = n - 1;
    while i >= 1
        invariant
            n == name@.len(),
            n >= 1,
            i <= n - 1,
            spec_rfind_dot(name@, n as int - 1) == spec_rfind_dot(name@, i as int),
        decreases i,
    {
        if name[i] == '.' {
            return Some(i);
        }
        i -= 1;
    }
    None
}

/// Splice `_k` in before the name's extension.
fn renamed(name: &Vec<char>, k: usize) -> (r: Vec<char>)
    ensures
        r@ == spec_renamed(name@, k as int),
{
    let digits = crate::utils::decimal_chars(k as u64);
    let n = name.len();
    let mut r: Vec<char> = Vec::new();
    match rfind_dot(name) {
        Some(p) => {
            proof {
                lemma_rfind_dot_range(name@, name@.len() - 1);
                assert(1 <= p as int && p as int <= name@.len() - 1);
            }
            push_range(&mut r, name, 0, p);
            proof {
                assert(name@.subrange(0, p as int) =~= name@.take(p as int));
            }
            r.push('_');
            push_all(&mut r, &digits);
            r.push('.');
            push_range(&mut r, name, p + 1, n);
            proof {
                assert(name@.subrange(p as int + 1, name@.len() as int) =~= name@.skip(
                    p as int + 1,
                ));
                assert(r@ =~= name@.take(p as int) + seq!['_'] + spec_decimal(k as int) + seq!['.']
                    + name@.skip(p as int + 1));
            }
        },
        None => {
            push_all(&mut r, name);
            r.push('_');
            push_all(&mut r, &digits);
            proof {
                assert(r@ =~= name@ + seq!['_'] + spec_decimal(k as int));
            }
        },
    }
    r
}

/// How many of the first `limit` names equal `x`.
fn count_matches(names: &Vec<Vec<char>>, x: &Vec<char>, limit: usize) -> (r: usize)
    requires
        limit <= names@.len(),
    ensures
        r == spec_count_occurrences(spec_views(names@).take(limit as int), x@),
{
    let mut count: usize = 0;
    let mut j: usize = 0;
    while j < limit
        invariant
            limit <= names@.len(),
            j <= limit,
            count <= j,
            count == spec_count_occurrences(spec_views(names@).take(j as int), x@),
        decreases limit - j,
    {
        proof {
            lemma_count_occurrences_take_step(spec_views(names@), x@, j as int);
            assert(spec_views(names@)[j as int] == names@[j as int]@);
        }
        if chars_eq(names[j].as_slice(), x.as_slice()) {
            count += 1;
        }
        j += 1;
    }
    count
}

/// What the `i`-th name of a batch becomes: unchanged when unique in
/// the whole list or at its first occurrence, else suffixed with the
/// number of its earlier occurrences.
pub open spec fn spec_disambiguated_at(vs: Seq<Seq<char>>, i: int) -> Seq<char> {
    if spec_count_occurrences(vs, vs[i]) <= 1 || spec_count_occurrences(vs.take(i), vs[i]) == 0 {
        vs[i]
    } else {
        spec_renamed(vs[i], spec_count_occurrences(vs.take(i), vs[i]))
    }
}

/// Give every name of a batch a distinct form: names that collide get
/// `_1`, `_2`, ... spliced in before their extension, in order of
/// appearance, while first occurrences and unique names stay as they
/// are.
pub fn disambiguate_names(names: &Vec<Vec<char>>) -> (r: Vec<Vec<char>>)
    ensures
        r@.len() == names@.len(),
        forall|i: int|
            0 <= i < names@.len() ==> r@[i]@ == spec_disambiguated_at(spec_views(names@), i),
{
    let ghost vs = spec_views(names@);
    let n = names.len();
    let mut r: Vec<Vec<char>> = Vec::new();
    let mut i: usize = 0;
    while i < n
        invariant
            n == names@.len(),
            vs == spec_views(names@),
            i <= n,
            r@.len() == i,
            forall|j: int| 0 <= j < i ==> r@[j]@ == spec_disambiguated_at(vs, j),
        decreases n - i,
    {
        proof {
            assert(vs.take(n as int) =~= vs);
            assert(vs[i as int] == names@[i as int]@);
        }
        let total = count_matches(names, &names[i], n);
        let prior = count_matches(names, &names[i], i);
        if total <= 1 || prior == 0 {
            r.push(clone_chars(&names[i]));
        } else {
            r.push(renamed(&names[i], prior));
        }
        i += 1;
    }
    r
}

} // verus!
