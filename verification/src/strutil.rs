//! Small verified helpers for working with strings and sequences of strings.

use vstd::prelude::*;

verus! {

/// The character-sequence views of a sequence of strings.
pub open spec fn str_views(s: Seq<String>) -> Seq<Seq<char>> {
    s.map_values(|x: String| x@)
}

pub broadcast proof fn lemma_str_views_len(s: Seq<String>)
    ensures
        #[trigger] str_views(s).len() == s.len(),
{
}

pub broadcast proof fn lemma_str_views_index(s: Seq<String>, i: int)
    requires
        0 <= i < s.len(),
    ensures
        #[trigger] str_views(s)[i] == s[i]@,
{
}

pub broadcast proof fn lemma_str_views_push(s: Seq<String>, x: String)
    ensures
        #[trigger] str_views(s.push(x)) == str_views(s).push(x@),
{
    assert(str_views(s.push(x)) =~= str_views(s).push(x@));
}

pub broadcast proof fn lemma_str_views_add(a: Seq<String>, b: Seq<String>)
    ensures
        #[trigger] str_views(a + b) == str_views(a) + str_views(b),
{
    assert(str_views(a + b) =~= str_views(a) + str_views(b));
}

/// Relies on `String::push`: appends the given character to the end of the
/// string.
pub assume_specification[ String::push ](s: &mut String, c: char)
    ensures
        final(s)@ == old(s)@.push(c),
;

/// The characters of a string, as a vector.
pub fn chars_of(s: &str) -> (r: Vec<char>)
    ensures
        r@ == s@,
{
    let n = s.unicode_len();
    let mut r: Vec<char> = Vec::new();
    let mut i: usize = 0;
    while i < n
        invariant
            n == s@.len(),
            0 <= i <= n,
            r@ == s@.take(i as int),
        decreases n - i,
    {
        r.push(s.get_char(i));
        i = i + 1;
        proof {
            assert(r@ =~= s@.take(i as int));
        }
    }
    proof {
        assert(s@.take(n as int) =~= s@);
    }
    r
}

/// A string holding exactly the given characters.
pub fn string_of(v: &Vec<char>) -> (r: String)
    ensures
        r@ == v@,
{
    let mut r = String::new();
    let mut i: usize = 0;
    while i < v.len()
        invariant
            0 <= i <= v.len(),
            r@ == v@.take(i as int),
        decreases v.len() - i,
    {
        r.push(v[i]);
        i = i + 1;
        proof {
            assert(r@ =~= v@.take(i as int));
        }
    }
    proof {
        assert(v@.take(v.len() as int) =~= v@);
    }
    r
}

/// Whether two string slices hold the same characters.
pub fn str_eq(a: &str, b: &str) -> (r: bool)
    ensures
        r == (a@ == b@),
{
    let na = a.unicode_len();
    let nb = b.unicode_len();
    if na != nb {
        proof {
            assert(a@ != b@);
        }
        return false;
    }
    let mut i: usize = 0;
    while i < na
        invariant
            na == a@.len(),
            na == b@.len(),
            0 <= i <= na,
            forall|k: int| 0 <= k < i ==> a@[k] == b@[k],
        decreases na - i,
    {
        if a.get_char(i) != b.get_char(i) {
            proof {
                assert(a@[i as int] != b@[i as int]);
            }
            return false;
        }
        i = i + 1;
    }
    proof {
        assert(a@ =~= b@);
    }
    true
}

/// Whether `p@` is a prefix of `s@`.
pub open spec fn has_prefix(s: Seq<char>, p: Seq<char>) -> bool {
    s.len() >= p.len() && s.take(p.len() as int) == p
}

/// Whether the string starts with the given prefix.
pub fn starts_with(s: &str, p: &str) -> (r: bool)
    ensures
        r == has_prefix(s@, p@),
{
    let ns = s.unicode_len();
    let np = p.unicode_len();
    if ns < np {
        return false;
    }
    let mut i: usize = 0;
    while i < np
        invariant
            ns == s@.len(),
            np == p@.len(),
            np <= ns,
            0 <= i <= np,
            forall|k: int| 0 <= k < i ==> s@[k] == p@[k],
        decreases np - i,
    {
        if s.get_char(i) != p.get_char(i) {
            proof {
                assert(s@.take(np as int)[i as int] != p@[i as int]);
            }
            return false;
        }
        i = i + 1;
    }
    proof {
        assert(s@.take(np as int) =~= p@);
    }
    true
}

/// Whether `p@` is a suffix of `s@`.
pub open spec fn has_suffix(s: Seq<char>, p: Seq<char>) -> bool {
    s.len() >= p.len() && s.skip(s.len() - p.len()) == p
}

/// Whether the string ends with the given suffix.
pub fn ends_with(s: &str, p: &str) -> (r: bool)
    ensures
        r == has_suffix(s@, p@),
{
    let ns = s.unicode_len();
    let np = p.unicode_len();
    if ns < np {
        return false;
    }
    let off = ns - np;
    let mut i: usize = 0;
    while i < np
        invariant
            ns == s@.len(),
            np == p@.len(),
            np <= ns,
            off == ns - np,
            0 <= i <= np,
            forall|k: int| 0 <= k < i ==> s@[off + k] == p@[k],
        decreases np - i,
    {
        if s.get_char(off + i) != p.get_char(i) {
            proof {
                assert(s@.skip(off as int)[i as int] != p@[i as int]);
            }
            return false;
        }
        i = i + 1;
    }
    proof {
        assert(s@.skip(off as int) =~= p@);
    }
    true
}

/// The smallest index at which `c` occurs in `s`, or `-1` if it does not.
pub open spec fn find_char(s: Seq<char>, c: char) -> int
    decreases s.len(),
{
    if s.len() == 0 {
        -1
    } else if s[0] == c {
        0
    } else {
        let r = find_char(s.skip(1), c);
        if r == -1 {
            -1
        } else {
            r + 1
        }
    }
}

pub proof fn lemma_find_char(s: Seq<char>, c: char)
    ensures
        -1 <= find_char(s, c) < s.len(),
        find_char(s, c) == -1 ==> forall|k: int| 0 <= k < s.len() ==> s[k] != c,
        find_char(s, c) >= 0 ==> 0 <= find_char(s, c) < s.len() && s[find_char(s, c)] == c
            && forall|k: int| 0 <= k < find_char(s, c) ==> s[k] != c,
    decreases s.len(),
{
    if s.len() > 0 && s[0] != c {
        let t = s.skip(1);
        lemma_find_char(t, c);
        if find_char(t, c) == -1 {
            assert(find_char(s, c) == -1);
            assert forall|k: int| 0 <= k < s.len() implies s[k] != c by {
                if k > 0 {
                    assert(t[k - 1] == s[k]);
                }
            }
        } else {
            let r = find_char(t, c);
            assert(find_char(s, c) == r + 1);
            assert(s[r + 1] == t[r]);
            assert forall|k: int| 0 <= k < r + 1 implies s[k] != c by {
                if k > 0 {
                    assert(t[k - 1] == s[k]);
                }
            }
        }
    }
}

/// The characterization pins `find_char` down: any index that is an
/// occurrence of `c` preceded by no other occurrence is the result.
pub proof fn lemma_find_char_unique(s: Seq<char>, c: char, i: int)
    requires
        0 <= i < s.len(),
        s[i] == c,
        forall|k: int| 0 <= k < i ==> s[k] != c,
    ensures
        find_char(s, c) == i,
{
    lemma_find_char(s, c);
}

pub proof fn lemma_find_char_none(s: Seq<char>, c: char)
    requires
        forall|k: int| 0 <= k < s.len() ==> s[k] != c,
    ensures
        find_char(s, c) == -1,
{
    lemma_find_char(s, c);
}

/// The largest index at which `c` occurs in `s`, or `-1` if it does not.
pub open spec fn rfind_char(s: Seq<char>, c: char) -> int
    decreases s.len(),
{
    if s.len() == 0 {
        -1
    } else if s[s.len() - 1] == c {
        s.len() - 1
    } else {
        rfind_char(s.drop_last(), c)
    }
}

pub proof fn lemma_rfind_char(s: Seq<char>, c: char)
    ensures
        -1 <= rfind_char(s, c) < s.len(),
        rfind_char(s, c) == -1 ==> forall|k: int| 0 <= k < s.len() ==> s[k] != c,
        rfind_char(s, c) >= 0 ==> 0 <= rfind_char(s, c) < s.len() && s[rfind_char(s, c)] == c
            && forall|k: int| rfind_char(s, c) < k < s.len() ==> s[k] != c,
    decreases s.len(),
{
    if s.len() > 0 && s[s.len() - 1] != c {
        let t = s.drop_last();
        lemma_rfind_char(t, c);
        if rfind_char(t, c) == -1 {
            assert(rfind_char(s, c) == -1);
            assert forall|k: int| 0 <= k < s.len() implies s[k] != c by {
                if k < s.len() - 1 {
                    assert(t[k] == s[k]);
                }
            }
        } else {
            let r = rfind_char(t, c);
            assert(rfind_char(s, c) == r);
            assert(s[r] == t[r]);
            assert forall|k: int| r < k < s.len() implies s[k] != c by {
                if k < s.len() - 1 {
                    assert(t[k] == s[k]);
                }
            }
        }
    }
}

pub proof fn lemma_rfind_char_unique(s: Seq<char>, c: char, i: int)
    requires
        0 <= i < s.len(),
        s[i] == c,
        forall|k: int| i < k < s.len() ==> s[k] != c,
    ensures
        rfind_char(s, c) == i,
{
    lemma_rfind_char(s, c);
}

pub proof fn lemma_rfind_char_none(s: Seq<char>, c: char)
    requires
        forall|k: int| 0 <= k < s.len() ==> s[k] != c,
    ensures
        rfind_char(s, c) == -1,
{
    lemma_rfind_char(s, c);
}

/// The smallest index of `c` in the string, if any.
pub fn find_in_str(s: &str, c: char) -> (r: Option<usize>)
    ensures
        match r {
            Some(j) => find_char(s@, c) == j as int,
            None => find_char(s@, c) == -1,
        },
{
    let n = s.unicode_len();
    let mut i: usize = 0;
    while i < n
        invariant
            n == s@.len(),
            0 <= i <= n,
            forall|k: int| 0 <= k < i ==> s@[k] != c,
        decreases n - i,
    {
        if s.get_char(i) == c {
            proof {
                lemma_find_char_unique(s@, c, i as int);
            }
            return Some(i);
        }
        i = i + 1;
    }
    proof {
        lemma_find_char_none(s@, c);
    }
    None
}

/// The largest index of `c` in the string, if any.
pub fn rfind_in_str(s: &str, c: char) -> (r: Option<usize>)
    ensures
        match r {
            Some(j) => rfind_char(s@, c) == j as int,
            None => rfind_char(s@, c) == -1,
        },
{
    let n = s.unicode_len();
    let mut i: usize = n;
    while i > 0
        invariant
            n == s@.len(),
            0 <= i <= n,
            forall|k: int| i <= k < n ==> s@[k] != c,
        decreases i,
    {
        i = i - 1;
        if s.get_char(i) == c {
            proof {
                lemma_rfind_char_unique(s@, c, i as int);
            }
            return Some(i);
        }
    }
    proof {
        lemma_rfind_char_none(s@, c);
    }
    None
}

/// Whether `c` occurs in the string.
pub fn contains_char(s: &str, c: char) -> (r: bool)
    ensures
        r == s@.contains(c),
{
    proof {
        lemma_find_char(s@, c);
    }
    match find_in_str(s, c) {
        Some(j) => {
            proof {
                assert(s@[j as int] == c);
            }
            true
        },
        None => {
            proof {
                assert forall|k: int| 0 <= k < s@.len() implies s@[k] != c by {}
            }
            false
        },
    }
}

/// Appending a path component: a separator is put between the two parts
/// unless the base is empty or already ends with one.
pub open spec fn join_path(base: Seq<char>, name: Seq<char>) -> Seq<char> {
    if base.len() == 0 {
        name
    } else if base[base.len() - 1] == '/' {
        base + name
    } else {
        base + seq!['/'] + name
    }
}

/// Joins a file name onto a directory path.
pub fn path_join(base: &str, name: &str) -> (r: String)
    ensures
        r@ == join_path(base@, name@),
{
    let n = base.unicode_len();
    if n == 0 {
        return name.to_owned();
    }
    let mut r = base.to_owned();
    if base.get_char(n - 1) != '/' {
        r.push('/');
    }
    r.append(name);
    proof {
        if base@[n - 1] != '/' {
            assert(r@ =~= base@ + seq!['/'] + name@);
        }
    }
    r
}

/// The character for a single decimal digit.
pub open spec fn dec_digit_char(d: int) -> char {
    if d == 0 {
        '0'
    } else if d == 1 {
        '1'
    } else if d == 2 {
        '2'
    } else if d == 3 {
        '3'
    } else if d == 4 {
        '4'
    } else if d == 5 {
        '5'
    } else if d == 6 {
        '6'
    } else if d == 7 {
        '7'
    } else if d == 8 {
        '8'
    } else {
        '9'
    }
}

/// The decimal digits of a non-negative number, most significant first.
pub open spec fn dec_str(n: int) -> Seq<char>
    decreases n,
{
    if n < 10 {
        seq![dec_digit_char(n)]
    } else {
        dec_str(n / 10).push(dec_digit_char(n % 10))
    }
}

fn digit_char(d: u64) -> (c: char)
    requires
        d < 10,
    ensures
        c == dec_digit_char(d as int),
{
    if d == 0 {
        '0'
    } else if d == 1 {
        '1'
    } else if d == 2 {
        '2'
    } else if d == 3 {
        '3'
    } else if d == 4 {
        '4'
    } else if d == 5 {
        '5'
    } else if d == 6 {
        '6'
    } else if d == 7 {
        '7'
    } else if d == 8 {
        '8'
    } else {
        '9'
    }
}

/// The decimal rendering of a number.
pub fn u64_to_string(n: u64) -> (r: String)
    ensures
        r@ == dec_str(n as int),
{
    let mut digits: Vec<char> = Vec::new();
    let mut m = n;
    while m >= 10
        invariant
            dec_str(n as int) == dec_str(m as int) + digits@.reverse(),
        decreases m,
    {
        let c = digit_char(m % 10);
        let ghost old_digits = digits@;
        digits.push(c);
        proof {
            assert(digits@.reverse() =~= seq![c] + old_digits.reverse());
            assert(dec_str(m as int) == dec_str(m as int / 10).push(dec_digit_char(m as int % 10)));
            assert(dec_str(m as int / 10).push(c) + old_digits.reverse() =~= dec_str(m as int / 10)
                + digits@.reverse());
        }
        m = m / 10;
    }
    let mut r = String::new();
    r.push(digit_char(m));
    let mut j = digits.len();
    while j > 0
        invariant
            0 <= j <= digits.len(),
            r@ == seq![dec_digit_char(m as int)] + digits@.subrange(j as int, digits.len() as int).reverse(),
        decreases j,
    {
        j = j - 1;
        let ghost old_r = r@;
        r.push(digits[j]);
        proof {
            let dv = digits@;
            let jj = j as int;
            assert(dv.subrange(jj, dv.len() as int) =~= seq![dv[jj]] + dv.subrange(jj + 1, dv.len() as int));
            assert(dv.subrange(jj, dv.len() as int).reverse() =~= dv.subrange(jj + 1, dv.len() as int).reverse().push(dv[jj]));
            assert(r@ =~= seq![dec_digit_char(m as int)] + dv.subrange(jj, dv.len() as int).reverse());
        }
    }
    proof {
        assert(digits@.subrange(0, digits.len() as int) =~= digits@);
        assert(r@ =~= dec_str(m as int) + digits@.reverse());
    }
    r
}

/// ASCII whitespace.
pub open spec fn is_space(c: char) -> bool {
    c == ' ' || c == '\t' || c == '\n' || c == '\r' || c == '\u{b}' || c == '\u{c}'
}

/// The sequence without its leading whitespace.
pub open spec fn trim_start(s: Seq<char>) -> Seq<char>
    decreases s.len(),
{
    if s.len() > 0 && is_space(s[0]) {
        trim_start(s.skip(1))
    } else {
        s
    }
}

/// The sequence without its trailing whitespace.
pub open spec fn trim_end(s: Seq<char>) -> Seq<char>
    decreases s.len(),
{
    if s.len() > 0 && is_space(s[s.len() - 1]) {
        trim_end(s.drop_last())
    } else {
        s
    }
}

/// The sequence without leading and trailing whitespace.
pub open spec fn trim(s: Seq<char>) -> Seq<char> {
    trim_end(trim_start(s))
}

pub proof fn lemma_trim_start_skip(s: Seq<char>, i: int)
    requires
        0 <= i <= s.len(),
        forall|k: int| 0 <= k < i ==> is_space(s[k]),
        i < s.len() ==> !is_space(s[i]),
    ensures
        trim_start(s) == s.skip(i),
    decreases i,
{
    if i == 0 {
        assert(s.skip(0) =~= s);
    } else {
        let t = s.skip(1);
        assert(is_space(s[0]));
        assert forall|k: int| 0 <= k < i - 1 implies is_space(t[k]) by {
            assert(t[k] == s[k + 1]);
        }
        if i - 1 < t.len() {
            assert(t[i - 1] == s[i]);
        }
        lemma_trim_start_skip(t, i - 1);
        assert(t.skip(i - 1) =~= s.skip(i));
    }
}

pub proof fn lemma_trim_end_take(s: Seq<char>, j: int)
    requires
        0 <= j <= s.len(),
        forall|k: int| j <= k < s.len() ==> is_space(s[k]),
        j > 0 ==> !is_space(s[j - 1]),
    ensures
        trim_end(s) == s.take(j),
    decreases s.len() - j,
{
    if j == s.len() {
        assert(s.take(j) =~= s);
    } else {
        let t = s.drop_last();
        assert(is_space(s[s.len() - 1]));
        assert forall|k: int| j <= k < t.len() implies is_space(t[k]) by {
            assert(t[k] == s[k]);
        }
        if j > 0 {
            assert(t[j - 1] == s[j - 1]);
        }
        lemma_trim_end_take(t, j);
        assert(t.take(j) =~= s.take(j));
    }
}

proof fn lemma_trim_start_head(s: Seq<char>)
    ensures
        trim_start(s).len() == 0 || !is_space(trim_start(s)[0]),
    decreases s.len(),
{
    if s.len() > 0 && is_space(s[0]) {
        lemma_trim_start_head(s.skip(1));
    }
}

proof fn lemma_trim_end_last(s: Seq<char>)
    ensures
        trim_end(s).len() == 0 || !is_space(trim_end(s)[trim_end(s).len() - 1]),
    decreases s.len(),
{
    if s.len() > 0 && is_space(s[s.len() - 1]) {
        lemma_trim_end_last(s.drop_last());
    }
}

proof fn lemma_trim_end_head(s: Seq<char>)
    ensures
        trim_end(s).len() == 0 || (s.len() > 0 && trim_end(s)[0] == s[0]),
    decreases s.len(),
{
    if s.len() > 0 && is_space(s[s.len() - 1]) {
        lemma_trim_end_head(s.drop_last());
        if trim_end(s).len() > 0 {
            assert(s.drop_last()[0] == s[0]);
        }
    }
}

/// Trimming is idempotent: a trimmed value is unchanged by trimming it
/// again.
pub proof fn lemma_trim_idempotent(s: Seq<char>)
    ensures
        trim(trim(s)) == trim(s),
{
    let u = trim_start(s);
    let t = trim_end(u);
    lemma_trim_end_last(u);
    assert(trim_end(t) == t);
    lemma_trim_start_head(s);
    lemma_trim_end_head(u);
    if t.len() == 0 {
        assert(trim_start(t) == t);
    } else {
        assert(u.len() > 0);
        assert(!is_space(u[0]));
        assert(t[0] == u[0]);
        assert(trim_start(t) == t);
    }
    assert(trim(t) == trim_end(trim_start(t)));
}

/// The characters with leading and trailing whitespace removed.
pub fn trim_chars(v: &Vec<char>) -> (r: Vec<char>)
    ensures
        r@ == trim(v@),
{
    let n = v.len();
    let mut i: usize = 0;
    while i < n && is_space_char(v[i])
        invariant
            n == v@.len(),
            0 <= i <= n,
            forall|k: int| 0 <= k < i ==> is_space(v@[k]),
        decreases n - i,
    {
        i = i + 1;
    }
    proof {
        lemma_trim_start_skip(v@, i as int);
    }
    if i == n {
        proof {
            assert(v@.skip(n as int) =~= Seq::<char>::empty());
        }
        let r: Vec<char> = Vec::new();
        proof {
            assert(trim_end(Seq::<char>::empty()) =~= Seq::<char>::empty());
            assert(r@ =~= trim(v@));
        }
        return r;
    }
    let mut j = n;
    while j > i && is_space_char(v[j - 1])
        invariant
            n == v@.len(),
            0 <= i <= j <= n,
            forall|k: int| j <= k < n ==> is_space(v@[k]),
        decreases j,
    {
        j = j - 1;
    }
    // `v[i]` is not whitespace, so the scan from the right stopped at some
    // `j > i` with `v[j - 1]` not whitespace.
    let mut r: Vec<char> = Vec::new();
    let mut k = i;
    while k < j
        invariant
            n == v@.len(),
            0 <= i <= k <= j <= n,
            r@ == v@.subrange(i as int, k as int),
        decreases j - k,
    {
        r.push(v[k]);
        k = k + 1;
        proof {
            assert(r@ =~= v@.subrange(i as int, k as int));
        }
    }
    proof {
        let sv = v@.skip(i as int);
        assert forall|k2: int| (j - i) <= k2 < sv.len() implies is_space(sv[k2]) by {
            assert(sv[k2] == v@[k2 + i]);
        }
        assert(!is_space(v@[i as int]));
        if j > i {
            assert(sv[j - i - 1] == v@[j - 1]);
        }
        lemma_trim_end_take(sv, j - i);
        assert(sv.take(j - i) =~= v@.subrange(i as int, j as int));
    }
    r
}

/// A copy of the given range of characters.
pub fn chars_range(v: &Vec<char>, a: usize, b: usize) -> (r: Vec<char>)
    requires
        0 <= a <= b <= v@.len(),
    ensures
        r@ == v@.subrange(a as int, b as int),
{
    let mut r: Vec<char> = Vec::new();
    let mut k = a;
    while k < b
        invariant
            0 <= a <= k <= b <= v@.len(),
            r@ == v@.subrange(a as int, k as int),
        decreases b - k,
    {
        r.push(v[k]);
        k = k + 1;
        proof {
            assert(r@ =~= v@.subrange(a as int, k as int));
        }
    }
    r
}

/// A copy of a vector of strings.
pub fn clone_strings(v: &Vec<String>) -> (r: Vec<String>)
    ensures
        str_views(r@) == str_views(v@),
        r@.len() == v@.len(),
{
    broadcast use lemma_str_views_push, lemma_str_views_len, lemma_str_views_index;

    let mut r: Vec<String> = Vec::new();
    let mut k: usize = 0;
    proof {
        assert(str_views(r@) =~= str_views(v@).take(0));
    }
    while k < v.len()
        invariant
            0 <= k <= v@.len(),
            r@.len() == k,
            str_views(r@) == str_views(v@).take(k as int),
        decreases v.len() - k,
    {
        r.push(v[k].clone());
        k = k + 1;
        proof {
            assert(str_views(r@) =~= str_views(v@).take(k as int));
        }
    }
    proof {
        assert(str_views(v@).take(v@.len() as int) =~= str_views(v@));
    }
    r
}

fn is_space_char(c: char) -> (r: bool)
    ensures
        r == is_space(c),
{
    c == ' ' || c == '\t' || c == '\n' || c == '\r' || c == '\u{b}' || c == '\u{c}'
}

} // verus!
