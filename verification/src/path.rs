//! The crate's path model: paths are strings of characters, viewed as
//! `Seq<char>`. This module defines the spec-level vocabulary (separators,
//! absolute paths, file-name and extension components, joining, splitting a
//! path-list string) and the verified executable helpers over `&str` and
//! `String` that the resolver builds on.

use vstd::prelude::*;

use crate::platform::{is_sep_char, Platform};

verus! {

/// Index of the first character of `s` satisfying `f`, if any.
pub open spec fn find_first(s: Seq<char>, f: spec_fn(char) -> bool) -> Option<int>
    decreases s.len(),
{
    if s.len() == 0 {
        None
    } else if f(s[0]) {
        Some(0int)
    } else {
        match find_first(s.drop_first(), f) {
            None => None,
            Some(j) => Some(j + 1),
        }
    }
}

/// `find_first` returns the least index satisfying `f`, or `None` when no
/// index does.
pub proof fn lemma_find_first(s: Seq<char>, f: spec_fn(char) -> bool)
    ensures
        match find_first(s, f) {
            None => forall|i: int| 0 <= i < s.len() ==> !f(s[i]),
            Some(k) => 0 <= k < s.len() && f(s[k]) && (forall|i: int| 0 <= i < k ==> !f(s[i])),
        },
    decreases s.len(),
{
    if s.len() > 0 && !f(s[0]) {
        lemma_find_first(s.drop_first(), f);
        assert(forall|i: int| 1 <= i < s.len() ==> s[i] == s.drop_first()[i - 1]);
    }
}

/// Index of the last character of `s` satisfying `f`, if any.
pub open spec fn find_last(s: Seq<char>, f: spec_fn(char) -> bool) -> Option<int>
    decreases s.len(),
{
    if s.len() == 0 {
        None
    } else if f(s.last()) {
        Some(s.len() - 1)
    } else {
        find_last(s.drop_last(), f)
    }
}

/// `find_last` returns the greatest index satisfying `f`, or `None` when no
/// index does.
pub proof fn lemma_find_last(s: Seq<char>, f: spec_fn(char) -> bool)
    ensures
        match find_last(s, f) {
            None => forall|i: int| 0 <= i < s.len() ==> !f(s[i]),
            Some(k) => 0 <= k < s.len() && f(s[k]) && (forall|i: int| k < i < s.len() ==> !f(s[i])),
        },
    decreases s.len(),
{
    if s.len() > 0 && !f(s.last()) {
        lemma_find_last(s.drop_last(), f);
        assert(forall|i: int| 0 <= i < s.len() - 1 ==> s[i] == s.drop_last()[i]);
    }
}

/// Whether `s` contains a path separator of platform `p`.
pub open spec fn has_sep(p: Platform, s: Seq<char>) -> bool {
    exists|i: int| 0 <= i < s.len() && is_sep_char(p, s[i])
}

/// Whether `c` is an ASCII letter.
pub open spec fn is_ascii_alpha(c: char) -> bool {
    ('a' as int) <= (c as int) <= ('z' as int) || ('A' as int) <= (c as int) <= ('Z' as int)
}

/// `c` with an ASCII upper-case letter folded to lower case.
pub open spec fn lower(c: char) -> char {
    if ('A' as int) <= (c as int) <= ('Z' as int) {
        ((c as int) + 32) as char
    } else {
        c
    }
}

/// Whether `a` and `b` are equal up to ASCII case.
pub open spec fn eq_ignore_case(a: Seq<char>, b: Seq<char>) -> bool {
    a.len() == b.len() && (forall|i: int| 0 <= i < a.len() ==> lower(a[i]) == lower(b[i]))
}

/// Whether `s` counts as absolute on platform `p`, which is what direct
/// mode leaves unchanged: it starts with a separator, or (on Windows) with
/// a drive letter followed by `:`. In this model a rooted but driveless
/// Windows name (one starting with a separator) is already anchored, so it
/// is never re-joined onto the working directory's drive.
pub open spec fn is_absolute(p: Platform, s: Seq<char>) -> bool {
    match p {
        Platform::Windows => (s.len() >= 1 && is_sep_char(p, s[0])) || (s.len() >= 2
            && is_ascii_alpha(s[0]) && s[1] == ':'),
        _ => s.len() >= 1 && s[0] == '/',
    }
}

/// `c` with an ASCII upper-case letter folded to lower case.
pub fn lower_char(c: char) -> (r: char)
    ensures
        r == lower(c),
{
    let u = c as u32;
    if 65 <= u && u <= 90 {
        ((c as u8) + 32) as char
    } else {
        c
    }
}

/// Whether the strings `a` and `b` hold the same characters.
pub fn str_eq(a: &str, b: &str) -> (r: bool)
    ensures
        r == (a@ == b@),
{
    let alen = a.unicode_len();
    let blen = b.unicode_len();
    if alen != blen {
        proof {
            assert(a@ != b@);
        }
        return false;
    }
    let mut i: usize = 0;
    while i < alen
        invariant
            i <= alen,
            alen == a@.len(),
            alen == b@.len(),
            forall|j: int| 0 <= j < i ==> a@[j] == b@[j],
        decreases alen - i,
    {
        if a.get_char(i) != b.get_char(i) {
            proof {
                assert(a@[i as int] != b@[i as int]);
            }
            return false;
        }
        i += 1;
    }
    proof {
        assert(a@ =~= b@);
    }
    true
}

/// Whether `a` and `b` hold the same characters up to ASCII case.
pub fn str_eq_ignore_case(a: &str, b: &str) -> (r: bool)
    ensures
        r == eq_ignore_case(a@, b@),
{
    let alen = a.unicode_len();
    let blen = b.unicode_len();
    if alen != blen {
        return false;
    }
    let mut i: usize = 0;
    while i < alen
        invariant
            i <= alen,
            alen == a@.len(),
            alen == b@.len(),
            forall|j: int| 0 <= j < i ==> lower(a@[j]) == lower(b@[j]),
        decreases alen - i,
    {
        if lower_char(a.get_char(i)) != lower_char(b.get_char(i)) {
            return false;
        }
        i += 1;
    }
    true
}

/// Whether the string `s` contains a path separator of platform `p`.
pub fn has_separator(p: Platform, s: &str) -> (r: bool)
    ensures
        r == has_sep(p, s@),
{
    let n = s.unicode_len();
    let mut i: usize = 0;
    while i < n
        invariant
            i <= n,
            n == s@.len(),
            forall|j: int| 0 <= j < i ==> !is_sep_char(p, s@[j]),
        decreases n - i,
    {
        if p.is_separator(s.get_char(i)) {
            return true;
        }
        i += 1;
    }
    false
}

/// The predicate satisfied exactly by the character `d`.
pub open spec fn is_delim(d: char) -> spec_fn(char) -> bool {
    |c: char| c == d
}

/// The pieces of `s` between occurrences of the delimiter `d`: one piece
/// per gap, so `n` delimiters give `n + 1` pieces, empty pieces included.
pub open spec fn spec_split(s: Seq<char>, d: char) -> Seq<Seq<char>>
    decreases s.len(),
{
    match find_first(s, is_delim(d)) {
        Some(i) => if 0 <= i < s.len() {
            seq![s.take(i)] + spec_split(s.skip(i + 1), d)
        } else {
            seq![s]
        },
        None => seq![s],
    }
}

/// Splitting off the first piece: if `s[i]` is the first occurrence of the
/// delimiter, the split is `s[..i]` followed by the split of `s[i + 1..]`.
pub proof fn lemma_split_step(s: Seq<char>, d: char, i: int)
    requires
        0 <= i < s.len(),
        s[i] == d,
        forall|j: int| 0 <= j < i ==> s[j] != d,
    ensures
        spec_split(s, d) == seq![s.take(i)] + spec_split(s.skip(i + 1), d),
{
    lemma_find_first(s, is_delim(d));
    match find_first(s, is_delim(d)) {
        None => {
            assert(!is_delim(d)(s[i]));
        },
        Some(k) => {
            if k < i {
                assert(s[k] != d);
            } else if k > i {
                assert(!is_delim(d)(s[i]));
            }
            assert(k == i);
        },
    }
}

/// A string without the delimiter splits into itself alone.
pub proof fn lemma_split_whole(s: Seq<char>, d: char)
    requires
        forall|j: int| 0 <= j < s.len() ==> s[j] != d,
    ensures
        spec_split(s, d) == seq![s],
{
    lemma_find_first(s, is_delim(d));
    match find_first(s, is_delim(d)) {
        None => {},
        Some(k) => {
            assert(is_delim(d)(s[k]));
            assert(s[k] != d);
        },
    }
}

/// Splits `s` on the delimiter `d` into its pieces, in order. The split is
/// the plain one: every delimiter separates, and quoting is not
/// interpreted.
pub fn split_list(s: &str, d: char) -> (r: Vec<String>)
    ensures
        r.deep_view() == spec_split(s@, d),
{
    let n = s.unicode_len();
    let mut parts: Vec<String> = Vec::new();
    let mut start: usize = 0;
    let mut i: usize = 0;
    proof {
        assert(s@.skip(0) =~= s@);
        assert(parts.deep_view() =~~= Seq::<Seq<char>>::empty());
    }
    while i < n
        invariant
            start <= i <= n,
            n == s@.len(),
            forall|j: int| start <= j < i ==> s@[j] != d,
            spec_split(s@, d) == parts.deep_view() + spec_split(s@.skip(start as int), d),
        decreases n - i,
    {
        if s.get_char(i) == d {
            let ghost old_parts = parts.deep_view();
            let piece = String::from_str(s.substring_char(start, i));
            parts.push(piece);
            proof {
                let tail = s@.skip(start as int);
                assert forall|j: int| 0 <= j < i - start implies tail[j] != d by {
                    assert(tail[j] == s@[start + j]);
                }
                lemma_split_step(tail, d, i - start);
                assert(tail.take(i - start) =~= s@.subrange(start as int, i as int));
                assert(tail.skip(i - start + 1) =~= s@.skip(i + 1));
                assert(parts.deep_view() =~~= old_parts + seq![s@.subrange(
                    start as int,
                    i as int,
                )]);
                assert((old_parts + seq![s@.subrange(start as int, i as int)]) + spec_split(
                    s@.skip(i + 1),
                    d,
                ) =~~= old_parts + (seq![s@.subrange(start as int, i as int)] + spec_split(
                    s@.skip(i + 1),
                    d,
                )));
            }
            start = i + 1;
        }
        i += 1;
    }
    let ghost old_parts = parts.deep_view();
    let piece = String::from_str(s.substring_char(start, n));
    parts.push(piece);
    proof {
        let tail = s@.skip(start as int);
        assert forall|j: int| 0 <= j < tail.len() implies tail[j] != d by {
            assert(tail[j] == s@[start + j]);
        }
        lemma_split_whole(tail, d);
        assert(tail =~= s@.subrange(start as int, n as int));
        assert(parts.deep_view() =~~= old_parts + seq![tail]);
    }
    parts
}

/// `name` resolved against the directory `dir`: `name` itself when `dir` is
/// empty, otherwise `dir` and `name` joined with a single separator.
pub open spec fn spec_join(p: Platform, dir: Seq<char>, name: Seq<char>) -> Seq<char> {
    if dir.len() == 0 {
        name
    } else if is_sep_char(p, dir.last()) {
        dir + name
    } else {
        dir + seq![crate::platform::sep_char(p)] + name
    }
}

/// A one-character string holding the platform's primary separator.
fn separator_str(p: Platform) -> (r: &'static str)
    ensures
        r@ =~= seq![crate::platform::sep_char(p)],
{
    proof {
        reveal_strlit("/");
        reveal_strlit("\\");
    }
    match p {
        Platform::Windows => "\\",
        _ => "/",
    }
}

/// Joins `dir` and `name` with the platform separator.
pub fn join_path(p: Platform, dir: &str, name: &str) -> (r: String)
    ensures
        r@ == spec_join(p, dir@, name@),
{
    let n = dir.unicode_len();
    if n == 0 {
        String::from_str(name)
    } else if p.is_separator(dir.get_char(n - 1)) {
        String::from_str(dir).concat(name)
    } else {
        let r = String::from_str(dir).concat(separator_str(p)).concat(name);
        proof {
            assert(r@ =~= spec_join(p, dir@, name@));
        }
        r
    }
}

/// `name` itself when it is already absolute, otherwise `name` resolved
/// against the working directory `cwd`.
pub open spec fn spec_to_absolute(p: Platform, name: Seq<char>, cwd: Seq<char>) -> Seq<char> {
    if is_absolute(p, name) {
        name
    } else {
        spec_join(p, cwd, name)
    }
}

/// Resolves `name` against `cwd` unless it is already absolute.
pub fn to_absolute(p: Platform, name: &str, cwd: &str) -> (r: String)
    ensures
        r@ == spec_to_absolute(p, name@, cwd@),
{
    if path_is_absolute(p, name) {
        String::from_str(name)
    } else {
        join_path(p, cwd, name)
    }
}

/// Index of the first string of `ss` satisfying `f`, if any.
pub open spec fn first_index(ss: Seq<Seq<char>>, f: spec_fn(Seq<char>) -> bool) -> Option<int>
    decreases ss.len(),
{
    if ss.len() == 0 {
        None
    } else if f(ss[0]) {
        Some(0int)
    } else {
        match first_index(ss.drop_first(), f) {
            None => None,
            Some(j) => Some(j + 1),
        }
    }
}

/// `first_index` returns the least index satisfying `f`, or `None` when no
/// index does.
pub proof fn lemma_first_index(ss: Seq<Seq<char>>, f: spec_fn(Seq<char>) -> bool)
    ensures
        match first_index(ss, f) {
            None => forall|i: int| 0 <= i < ss.len() ==> !f(ss[i]),
            Some(k) => 0 <= k < ss.len() && f(ss[k]) && (forall|i: int| 0 <= i < k ==> !f(ss[i])),
        },
    decreases ss.len(),
{
    if ss.len() > 0 && !f(ss[0]) {
        lemma_first_index(ss.drop_first(), f);
        assert(forall|i: int| 1 <= i < ss.len() ==> ss[i] == ss.drop_first()[i - 1]);
    }
}

/// `first_index` returns `Some(k)` exactly when `ss[k]` satisfies `f` and no
/// earlier string does.
pub proof fn lemma_first_index_pin(ss: Seq<Seq<char>>, f: spec_fn(Seq<char>) -> bool, k: int)
    requires
        0 <= k < ss.len(),
        f(ss[k]),
        forall|j: int| 0 <= j < k ==> !f(ss[j]),
    ensures
        first_index(ss, f) == Some(k),
{
    lemma_first_index(ss, f);
    match first_index(ss, f) {
        None => {
            assert(!f(ss[k]));
        },
        Some(m) => {
            if m < k {
                assert(!f(ss[m]));
            } else if m > k {
                assert(!f(ss[k]));
            }
        },
    }
}

/// When every string of `a` fails `f`, the first index in `a + b` is the
/// first index in `b`, shifted past `a`.
pub proof fn lemma_first_index_concat(
    a: Seq<Seq<char>>,
    b: Seq<Seq<char>>,
    f: spec_fn(Seq<char>) -> bool,
)
    requires
        forall|j: int| 0 <= j < a.len() ==> !f(#[trigger] a[j]),
    ensures
        first_index(a + b, f) == match first_index(b, f) {
            Some(k) => Some(a.len() + k),
            None => None::<int>,
        },
    decreases a.len(),
{
    if a.len() == 0 {
        assert(a + b =~~= b);
    } else {
        assert((a + b)[0] == a[0]);
        assert(!f((a + b)[0]));
        assert((a + b).drop_first() =~~= a.drop_first() + b);
        assert(forall|j: int| 0 <= j < a.drop_first().len() ==> a.drop_first()[j] == a[j + 1]);
        lemma_first_index_concat(a.drop_first(), b, f);
    }
}

/// `first_index` returns `None` when no string satisfies `f`.
pub proof fn lemma_first_index_absent(ss: Seq<Seq<char>>, f: spec_fn(Seq<char>) -> bool)
    requires
        forall|j: int| 0 <= j < ss.len() ==> !f(ss[j]),
    ensures
        first_index(ss, f) == None::<int>,
{
    lemma_first_index(ss, f);
    match first_index(ss, f) {
        None => {},
        Some(m) => {
            assert(f(ss[m]));
        },
    }
}

/// The predicate satisfied exactly by the separators of platform `p`.
pub open spec fn sep_pred(p: Platform) -> spec_fn(char) -> bool {
    |c: char| is_sep_char(p, c)
}

/// `find_last` returns `Some(k)` exactly when `s[k]` satisfies `f` and no
/// later character does.
pub proof fn lemma_find_last_pin(s: Seq<char>, f: spec_fn(char) -> bool, k: int)
    requires
        0 <= k < s.len(),
        f(s[k]),
        forall|j: int| k < j < s.len() ==> !f(s[j]),
    ensures
        find_last(s, f) == Some(k),
{
    lemma_find_last(s, f);
    match find_last(s, f) {
        None => {
            assert(!f(s[k]));
        },
        Some(m) => {
            if m < k {
                assert(!f(s[k]));
            } else if m > k {
                assert(!f(s[m]));
            }
        },
    }
}

/// `find_last` returns `None` when no character satisfies `f`.
pub proof fn lemma_find_last_absent(s: Seq<char>, f: spec_fn(char) -> bool)
    requires
        forall|j: int| 0 <= j < s.len() ==> !f(s[j]),
    ensures
        find_last(s, f) == None::<int>,
{
    lemma_find_last(s, f);
    match find_last(s, f) {
        None => {},
        Some(m) => {
            assert(f(s[m]));
        },
    }
}

/// Index of the first character of the file-name component of `s`: the
/// character after the last separator, or `0` when `s` has none.
pub open spec fn name_start(p: Platform, s: Seq<char>) -> int {
    match find_last(s, sep_pred(p)) {
        None => 0,
        Some(i) => i + 1,
    }
}

/// The file-name component of `s`: everything after the last separator.
pub open spec fn file_name_of(p: Platform, s: Seq<char>) -> Seq<char> {
    s.skip(name_start(p, s))
}

/// The directory prefix of `s`, up to and including the last separator;
/// empty when `s` has no separator.
pub open spec fn dir_prefix_of(p: Platform, s: Seq<char>) -> Seq<char> {
    s.take(name_start(p, s))
}

/// Index of the dot that begins the extension of `s`, if `s` has one: the
/// last dot of the file-name component, provided it is not the component's
/// first character.
pub open spec fn ext_dot_idx(p: Platform, s: Seq<char>) -> Option<int> {
    match find_last(s, is_delim('.')) {
        Some(k) => if k > name_start(p, s) {
            Some(k)
        } else {
            None
        },
        None => None,
    }
}

/// The extension of `s`: what follows the dot found by `ext_dot_idx`.
pub open spec fn extension_of(p: Platform, s: Seq<char>) -> Option<Seq<char>> {
    match ext_dot_idx(p, s) {
        Some(k) => Some(s.skip(k + 1)),
        None => None,
    }
}

/// Index of the last separator of `s`, if any.
pub fn find_last_sep(p: Platform, s: &str) -> (r: Option<usize>)
    ensures
        match r {
            None => find_last(s@, sep_pred(p)) is None,
            Some(u) => u < s@.len() && find_last(s@, sep_pred(p)) == Some(u as int),
        },
{
    let n = s.unicode_len();
    let mut i: usize = n;
    while i > 0
        invariant
            i <= n,
            n == s@.len(),
            forall|j: int| i <= j < n ==> !sep_pred(p)(s@[j]),
        decreases i,
    {
        if p.is_separator(s.get_char(i - 1)) {
            proof {
                lemma_find_last_pin(s@, sep_pred(p), i - 1);
            }
            return Some(i - 1);
        }
        i -= 1;
    }
    proof {
        lemma_find_last_absent(s@, sep_pred(p));
    }
    None
}

/// The file-name component of `s`.
pub fn file_name(p: Platform, s: &str) -> (r: String)
    ensures
        r@ == file_name_of(p, s@),
{
    let n = s.unicode_len();
    let st = match find_last_sep(p, s) {
        None => 0,
        Some(i) => i + 1,
    };
    String::from_str(s.substring_char(st, n))
}

/// The directory prefix of `s`, up to and including the last separator.
pub fn dir_prefix(p: Platform, s: &str) -> (r: String)
    ensures
        r@ == dir_prefix_of(p, s@),
{
    let n = s.unicode_len();
    let st = match find_last_sep(p, s) {
        None => 0,
        Some(i) => i + 1,
    };
    String::from_str(s.substring_char(0, st))
}

/// Index of the dot that begins the extension of `s`, if `s` has one.
pub fn extension_dot(p: Platform, s: &str) -> (r: Option<usize>)
    ensures
        match r {
            None => ext_dot_idx(p, s@) is None,
            Some(u) => u < s@.len() && ext_dot_idx(p, s@) == Some(u as int),
        },
{
    let n = s.unicode_len();
    let mut i: usize = n;
    while i > 0
        invariant
            i <= n,
            n == s@.len(),
            forall|j: int| i <= j < n ==> !is_delim('.')(s@[j]) && !sep_pred(p)(s@[j]),
        decreases i,
    {
        let c = s.get_char(i - 1);
        if c == '.' {
            proof {
                lemma_find_last_pin(s@, is_delim('.'), i - 1);
            }
            if i - 1 == 0 {
                proof {
                    lemma_find_last(s@, sep_pred(p));
                }
                return None;
            }
            // The dot begins an extension only if it is not the first
            // character of the file-name component.
            if p.is_separator(s.get_char(i - 2)) {
                proof {
                    lemma_find_last_pin(s@, sep_pred(p), i - 2);
                }
                return None;
            } else {
                proof {
                    lemma_find_last(s@, sep_pred(p));
                    match find_last(s@, sep_pred(p)) {
                        None => {},
                        Some(m) => {
                            assert(!sep_pred(p)(s@[i - 1]));
                            assert(!sep_pred(p)(s@[i - 2]));
                            assert(m < i - 2);
                        },
                    }
                }
                return Some(i - 1);
            }
        } else if p.is_separator(c) {
            proof {
                lemma_find_last_pin(s@, sep_pred(p), i - 1);
                lemma_find_last(s@, is_delim('.'));
                match find_last(s@, is_delim('.')) {
                    None => {},
                    Some(k) => {
                        assert(is_delim('.')(s@[k]));
                        assert(k < i - 1);
                    },
                }
            }
            return None;
        }
        i -= 1;
    }
    proof {
        lemma_find_last_absent(s@, is_delim('.'));
    }
    None
}


/// Whether the string `s` is an absolute path on platform `p`.
pub fn path_is_absolute(p: Platform, s: &str) -> (r: bool)
    ensures
        r == is_absolute(p, s@),
{
    let n = s.unicode_len();
    match p {
        Platform::Windows => {
            if n >= 1 && p.is_separator(s.get_char(0)) {
                return true;
            }
            if n >= 2 {
                let c0 = s.get_char(0) as u32;
                let alpha = (97 <= c0 && c0 <= 122) || (65 <= c0 && c0 <= 90);
                alpha && s.get_char(1) == ':'
            } else {
                false
            }
        },
        _ => n >= 1 && s.get_char(0) == '/',
    }
}

} // verus!
