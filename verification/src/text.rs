//! Text primitives: searching, splitting, trimming and number conversion on strings,
//! specified over sequences of characters.

use vstd::prelude::*;

verus! {

/// `String::push` appends one character.
pub assume_specification[ String::push ](s: &mut String, c: char)
    ensures
        final(s)@ == old(s)@.push(c),
;

// ---------------------------------------------------------------------------
// Conversions
// ---------------------------------------------------------------------------

/// The characters of a string.
pub fn chars_of(s: &str) -> (v: Vec<char>)
    ensures
        v@ == s@,
{
    let mut v: Vec<char> = Vec::new();
    for c in it: s.chars()
        invariant
            v@ == it.seq().take(it.index() as int),
            it.seq() == s@,
    {
        v.push(c);
        assert(it.seq().take(it.index() + 1) =~= it.seq().take(it.index() as int).push(c));
    }
    assert(s@.take(s@.len() as int) =~= s@);
    v
}

/// The string made of the characters `v[from..to]`.
pub fn string_of(v: &Vec<char>, from: usize, to: usize) -> (s: String)
    requires
        from <= to <= v@.len(),
    ensures
        s@ == v@.subrange(from as int, to as int),
{
    let mut s = String::new();
    let mut i: usize = from;
    while i < to
        invariant
            from <= i <= to <= v@.len(),
            s@ == v@.subrange(from as int, i as int),
        decreases to - i,
    {
        s.push(v[i]);
        i = i + 1;
        assert(v@.subrange(from as int, i as int) =~= v@.subrange(from as int, i - 1).push(
            v@[i - 1],
        ));
    }
    s
}

/// The view of an optional text.
pub open spec fn opt_text(o: Option<&str>) -> Option<Seq<char>> {
    match o {
        Some(s) => Some(s@),
        None => None,
    }
}

/// The view of an optional string.
pub open spec fn opt_string(o: Option<String>) -> Option<Seq<char>> {
    match o {
        Some(s) => Some(s@),
        None => None,
    }
}

/// The concatenation of two strings.
pub fn cat2(a: &str, b: &str) -> (s: String)
    ensures
        s@ == a@ + b@,
{
    a.to_owned().concat(b)
}

/// The concatenation of three strings.
pub fn cat3(a: &str, b: &str, c: &str) -> (s: String)
    ensures
        s@ == a@ + b@ + c@,
{
    a.to_owned().concat(b).concat(c)
}

/// Whether two strings hold the same characters.
pub fn same(a: &str, b: &str) -> (r: bool)
    ensures
        r == (a@ == b@),
{
    a.to_owned() == b.to_owned()
}

// ---------------------------------------------------------------------------
// Prefixes
// ---------------------------------------------------------------------------

/// Whether `prefix` starts `s`.
pub open spec fn starts(s: Seq<char>, prefix: Seq<char>) -> bool {
    prefix.is_prefix_of(s)
}

pub fn starts_with(s: &str, prefix: &str) -> (r: bool)
    ensures
        r == starts(s@, prefix@),
{
    let a = chars_of(s);
    let b = chars_of(prefix);
    if b.len() > a.len() {
        return false;
    }
    let mut i: usize = 0;
    while i < b.len()
        invariant
            a@ == s@,
            b@ == prefix@,
            i <= b@.len() <= a@.len(),
            forall|j: int| 0 <= j < i ==> a@[j] == b@[j],
        decreases b@.len() - i,
    {
        if a[i] != b[i] {
            assert(b@ != a@.subrange(0, b@.len() as int)) by {
                assert(a@.subrange(0, b@.len() as int)[i as int] == a@[i as int]);
            }
            return false;
        }
        i = i + 1;
    }
    assert(b@ =~= a@.subrange(0, b@.len() as int));
    true
}

/// What follows `prefix` in `s`, where `prefix` starts `s`.
pub open spec fn after(s: Seq<char>, prefix: Seq<char>) -> Option<Seq<char>> {
    if starts(s, prefix) {
        Some(s.skip(prefix.len() as int))
    } else {
        None
    }
}

pub fn strip_prefix(s: &str, prefix: &str) -> (r: Option<String>)
    ensures
        match r {
            Some(t) => after(s@, prefix@) == Some(t@),
            None => after(s@, prefix@) is None,
        },
{
    if starts_with(s, prefix) {
        let a = chars_of(s);
        let n = chars_of(prefix).len();
        Some(string_of(&a, n, a.len()))
    } else {
        None
    }
}

// ---------------------------------------------------------------------------
// Searching and splitting
// ---------------------------------------------------------------------------

/// `i` is where `c` first stands in `s`.
pub open spec fn first_at(s: Seq<char>, c: char, i: int) -> bool {
    &&& 0 <= i < s.len()
    &&& s[i] == c
    &&& forall|j: int| 0 <= j < i ==> s[j] != c
}

/// `i` is where `c` last stands in `s`.
pub open spec fn last_at(s: Seq<char>, c: char, i: int) -> bool {
    &&& 0 <= i < s.len()
    &&& s[i] == c
    &&& forall|j: int| i < j < s.len() ==> s[j] != c
}

/// The text before and after the first `c` in `s`.
pub open spec fn cut(s: Seq<char>, c: char) -> Option<(Seq<char>, Seq<char>)> {
    if s.contains(c) {
        let i = choose|i: int| first_at(s, c, i);
        Some((s.take(i), s.skip(i + 1)))
    } else {
        None
    }
}

/// The cut at `c` is made where `c` first stands.
pub proof fn lemma_cut_at(s: Seq<char>, c: char, i: int)
    requires
        first_at(s, c, i),
    ensures
        cut(s, c) == Some((s.take(i), s.skip(i + 1))),
{
    assert(s.contains(c));
    let k = choose|k: int| first_at(s, c, k);
    assert(first_at(s, c, k));
    if k < i {
        assert(s[k] != c);
    }
    if i < k {
        assert(s[i] != c);
    }
}

/// Where `c` first stands in `v[from..]`.
pub fn find_from(v: &Vec<char>, c: char, from: usize) -> (r: Option<usize>)
    requires
        from <= v@.len(),
    ensures
        match r {
            Some(i) => from <= i < v@.len() && v@[i as int] == c && forall|j: int|
                from <= j < i ==> v@[j] != c,
            None => forall|j: int| from <= j < v@.len() ==> v@[j] != c,
        },
{
    let mut i: usize = from;
    while i < v.len()
        invariant
            from <= i <= v@.len(),
            forall|j: int| from <= j < i ==> v@[j] != c,
        decreases v@.len() - i,
    {
        if v[i] == c {
            return Some(i);
        }
        i = i + 1;
    }
    None
}

/// Where `c` last stands in `v`.
pub fn find_last(v: &Vec<char>, c: char) -> (r: Option<usize>)
    ensures
        match r {
            Some(i) => last_at(v@, c, i as int),
            None => !v@.contains(c),
        },
{
    let mut i: usize = v.len();
    while i > 0
        invariant
            i <= v@.len(),
            forall|j: int| i <= j < v@.len() ==> v@[j] != c,
        decreases i,
    {
        i = i - 1;
        if v[i] == c {
            return Some(i);
        }
    }
    None
}

/// Whether `c` stands in `s`.
pub fn has_char(s: &str, c: char) -> (r: bool)
    ensures
        r == s@.contains(c),
{
    let v = chars_of(s);
    match find_from(&v, c, 0) {
        Some(i) => {
            assert(v@[i as int] == c);
            true
        },
        None => false,
    }
}

/// Splits `s` at the first `c`.
pub fn split_once(s: &str, c: char) -> (r: Option<(String, String)>)
    ensures
        match r {
            Some((a, b)) => cut(s@, c) == Some((a@, b@)),
            None => cut(s@, c) is None,
        },
{
    let v = chars_of(s);
    match find_from(&v, c, 0) {
        Some(i) => {
            proof {
                assert(first_at(s@, c, i as int));
                lemma_cut_at(s@, c, i as int);
            }
            let n: usize = v.len();
            let a = string_of(&v, 0, i);
            let b = string_of(&v, i + 1, n);
            assert(a@ =~= s@.take(i as int));
            assert(b@ =~= s@.skip(i + 1));
            Some((a, b))
        },
        None => None,
    }
}

/// The pieces of `s` between the occurrences of `c`.
pub open spec fn pieces(s: Seq<char>, c: char) -> Seq<Seq<char>>
    decreases s.len(),
{
    match cut(s, c) {
        Some((a, b)) => if b.len() < s.len() {
            seq![a] + pieces(b, c)
        } else {
            seq![s]
        },
        None => seq![s],
    }
}

/// The views of a list of strings.
pub open spec fn views(v: Seq<String>) -> Seq<Seq<char>> {
    v.map_values(|s: String| s@)
}

/// Splits `s` at every `c`.
pub fn split(s: &str, c: char) -> (r: Vec<String>)
    ensures
        views(r@) == pieces(s@, c),
{
    let v = chars_of(s);
    let mut out: Vec<String> = Vec::new();
    let mut from: usize = 0;
    proof {
        assert(v@.skip(0) =~= v@);
        assert(views(out@) + pieces(v@, c) =~= pieces(v@, c));
    }
    loop
        invariant
            v@ == s@,
            from <= v@.len(),
            views(out@) + pieces(v@.skip(from as int), c) == pieces(v@, c),
        decreases v@.len() - from,
    {
        let ghost rest = v@.skip(from as int);
        match find_from(&v, c, from) {
            Some(i) => {
                let ghost before = out@;
                assert(i < v.len());
                out.push(string_of(&v, from, i));
                proof {
                    let k = i - from;
                    assert(forall|j: int| 0 <= j < k ==> rest[j] == v@[from + j]);
                    assert(first_at(rest, c, k));
                    lemma_cut_at(rest, c, k);
                    assert(rest.take(k) =~= v@.subrange(from as int, i as int));
                    assert(rest.skip(k + 1) =~= v@.skip(i + 1));
                    assert(views(out@) =~= views(before).push(rest.take(k)));
                    assert(views(out@) + pieces(v@.skip(i + 1), c) =~= views(before) + (seq![
                        rest.take(k),
                    ] + pieces(v@.skip(i + 1), c)));
                }
                from = i + 1;
            },
            None => {
                let ghost before = out@;
                out.push(string_of(&v, from, v.len()));
                proof {
                    assert(!rest.contains(c)) by {
                        if rest.contains(c) {
                            let j = choose|j: int| 0 <= j < rest.len() && rest[j] == c;
                            assert(v@[from + j] == c);
                        }
                    }
                    assert(rest =~= v@.subrange(from as int, v@.len() as int));
                    assert(views(out@) =~= views(before) + seq![rest]);
                }
                return out;
            },
        }
    }
}

/// Whether `t` stands somewhere in `s`.
pub open spec fn holds(s: Seq<char>, t: Seq<char>) -> bool {
    exists|i: int| 0 <= i <= s.len() && starts(#[trigger] s.skip(i), t)
}

/// Whether `v[at..]` starts with `t`.
pub fn starts_at(v: &Vec<char>, at: usize, t: &Vec<char>) -> (r: bool)
    requires
        at <= v@.len(),
    ensures
        r == starts(v@.skip(at as int), t@),
{
    if t.len() > v.len() - at {
        return false;
    }
    let ghost rest = v@.skip(at as int);
    let mut i: usize = 0;
    while i < t.len()
        invariant
            at + t@.len() <= v.len(),
            rest == v@.skip(at as int),
            i <= t@.len(),
            forall|j: int| 0 <= j < i ==> rest[j] == t@[j],
        decreases t@.len() - i,
    {
        if v[at + i] != t[i] {
            assert(rest.subrange(0, t@.len() as int)[i as int] == v@[at + i]);
            return false;
        }
        i = i + 1;
    }
    assert(t@ =~= rest.subrange(0, t@.len() as int));
    true
}

pub fn contains_text(s: &str, t: &str) -> (r: bool)
    ensures
        r == holds(s@, t@),
{
    let a = chars_of(s);
    let b = chars_of(t);
    let mut i: usize = 0;
    while i < a.len()
        invariant
            a@ == s@,
            b@ == t@,
            i <= a@.len(),
            forall|j: int| 0 <= j < i ==> !starts(#[trigger] s@.skip(j), t@),
        decreases a@.len() - i,
    {
        if starts_at(&a, i, &b) {
            return true;
        }
        i = i + 1;
    }
    starts_at(&a, i, &b)
}

// ---------------------------------------------------------------------------
// Trimming and replacing
// ---------------------------------------------------------------------------

/// `s` without the `c`s it ends in.
pub open spec fn trimmed(s: Seq<char>, c: char) -> Seq<char>
    decreases s.len(),
{
    if s.len() > 0 && s.last() == c {
        trimmed(s.drop_last(), c)
    } else {
        s
    }
}

pub fn trim_end(s: &str, c: char) -> (r: String)
    ensures
        r@ == trimmed(s@, c),
{
    let v = chars_of(s);
    let mut n: usize = v.len();
    assert(v@.take(n as int) =~= v@);
    while n > 0 && v[n - 1] == c
        invariant
            v@ == s@,
            n <= v@.len(),
            trimmed(v@.take(n as int), c) == trimmed(s@, c),
        decreases n,
    {
        assert(v@.take(n as int).drop_last() =~= v@.take(n - 1));
        n = n - 1;
    }
    assert(n > 0 ==> v@.take(n as int).last() == v@[n - 1]);
    assert(v@.take(n as int) =~= v@.subrange(0, n as int));
    string_of(&v, 0, n)
}

/// Whether `suffix` ends `s`.
pub open spec fn ends(s: Seq<char>, suffix: Seq<char>) -> bool {
    suffix.is_suffix_of(s)
}

/// `s` without the copies of `suffix` it ends in.
pub open spec fn trimmed_text(s: Seq<char>, suffix: Seq<char>) -> Seq<char>
    decreases s.len(),
{
    if suffix.len() > 0 && ends(s, suffix) {
        trimmed_text(s.take(s.len() - suffix.len()), suffix)
    } else {
        s
    }
}

pub fn trim_end_text(s: &str, suffix: &str) -> (r: String)
    ensures
        r@ == trimmed_text(s@, suffix@),
{
    let v = chars_of(s);
    let t = chars_of(suffix);
    let mut n: usize = v.len();
    assert(v@.take(n as int) =~= v@);
    if t.len() == 0 {
        return s.to_owned();
    }
    loop
        invariant
            v@ == s@,
            t@ == suffix@,
            t@.len() > 0,
            n <= v@.len(),
            trimmed_text(v@.take(n as int), suffix@) == trimmed_text(s@, suffix@),
        decreases n,
    {
        let ghost cur = v@.take(n as int);
        if n < t.len() {
            assert(!ends(cur, suffix@));
            assert(cur =~= v@.subrange(0, n as int));
            return string_of(&v, 0, n);
        }
        let k = n - t.len();
        let mut i: usize = 0;
        while i < t.len() && v[k + i] == t[i]
            invariant
                v@ == s@,
                t@ == suffix@,
                n <= v@.len(),
                k + t@.len() == n,
                i <= t@.len(),
                forall|j: int| 0 <= j < i ==> v@[k + j] == t@[j],
            decreases t@.len() - i,
        {
            i = i + 1;
        }
        if i < t.len() {
            assert(cur.subrange(k as int, n as int)[i as int] == v@[k + i]);
            assert(!ends(cur, suffix@));
            assert(cur =~= v@.subrange(0, n as int));
            return string_of(&v, 0, n);
        }
        assert(suffix@ =~= cur.subrange(k as int, n as int));
        assert(cur.take(k as int) =~= v@.take(k as int));
        n = k;
    }
}

// ---------------------------------------------------------------------------
// Words
// ---------------------------------------------------------------------------

/// The characters that separate words: those with the Unicode property `White_Space`.
pub open spec fn is_space(c: char) -> bool {
    let n = c as int;
    ||| 0x09 <= n <= 0x0d
    ||| n == 0x20
    ||| n == 0x85
    ||| n == 0xa0
    ||| n == 0x1680
    ||| 0x2000 <= n <= 0x200a
    ||| n == 0x2028
    ||| n == 0x2029
    ||| n == 0x202f
    ||| n == 0x205f
    ||| n == 0x3000
}

fn is_white(c: char) -> (r: bool)
    ensures
        r == is_space(c),
{
    let n = c as u32;
    (0x09 <= n && n <= 0x0d) || n == 0x20 || n == 0x85 || n == 0xa0 || n == 0x1680 || (0x2000 <= n
        && n <= 0x200a) || n == 0x2028 || n == 0x2029 || n == 0x202f || n == 0x205f || n == 0x3000
}

/// How many characters the first word of `s` has; 0 where `s` does not start with one.
pub open spec fn word_length(s: Seq<char>) -> nat
    decreases s.len(),
{
    if s.len() == 0 || is_space(s[0]) {
        0
    } else {
        1 + word_length(s.drop_first())
    }
}

/// The words of `s`, which white space separates.
pub open spec fn words(s: Seq<char>) -> Seq<Seq<char>>
    decreases s.len(),
{
    if s.len() == 0 {
        Seq::empty()
    } else if is_space(s[0]) || word_length(s) > s.len() {
        words(s.drop_first())
    } else {
        seq![s.take(word_length(s) as int)] + words(s.skip(word_length(s) as int))
    }
}

proof fn lemma_word_at(s: Seq<char>, n: int)
    requires
        0 <= n <= s.len(),
        forall|i: int| 0 <= i < n ==> !is_space(#[trigger] s[i]),
        n == s.len() || is_space(s[n]),
    ensures
        word_length(s) == n,
    decreases n,
{
    if n > 0 {
        assert(!is_space(s[0]));
        let t = s.drop_first();
        assert forall|i: int| 0 <= i < n - 1 implies !is_space(#[trigger] t[i]) by {
            assert(t[i] == s[i + 1]);
        }
        lemma_word_at(t, n - 1);
    }
}

/// Splits `s` into words.
pub fn split_words(s: &str) -> (r: Vec<String>)
    ensures
        views(r@) == words(s@),
{
    let v = chars_of(s);
    let n: usize = v.len();
    let mut r: Vec<String> = Vec::new();
    let mut i: usize = 0;
    proof {
        assert(s@.skip(0) =~= s@);
        assert(views(r@) + words(s@) =~= words(s@));
    }
    while i < n
        invariant
            v@ == s@,
            n == v@.len(),
            i <= n,
            views(r@) + words(s@.skip(i as int)) == words(s@),
        decreases n - i,
    {
        let ghost rest = s@.skip(i as int);
        assert(rest[0] == s@[i as int]);
        if is_white(v[i]) {
            assert(rest.drop_first() =~= s@.skip(i + 1));
            i = i + 1;
        } else {
            let mut j: usize = i;
            while j < n && !is_white(v[j])
                invariant
                    v@ == s@,
                    n == v@.len(),
                    i <= j <= n,
                    forall|k: int| i <= k < j ==> !is_space(#[trigger] s@[k]),
                decreases n - j,
            {
                j = j + 1;
            }
            let word = string_of(&v, i, j);
            let ghost had = r@;
            r.push(word);
            proof {
                assert forall|k: int| 0 <= k < j - i implies !is_space(#[trigger] rest[k]) by {
                    assert(rest[k] == s@[i + k]);
                }
                if j < n {
                    assert(rest[j - i] == s@[j as int]);
                }
                lemma_word_at(rest, j - i);
                assert(!is_space(s@[i as int]));
                assert(rest.take(j - i) =~= word@);
                assert(rest.skip(j - i) =~= s@.skip(j as int));
                assert(views(r@) =~= views(had).push(word@));
                assert(views(r@) + words(s@.skip(j as int)) =~= views(had) + (seq![word@] + words(
                    s@.skip(j as int),
                )));
            }
            i = j;
        }
    }
    assert(s@.skip(i as int) =~= Seq::<char>::empty());
    assert(views(r@) + words(s@.skip(i as int)) =~= views(r@));
    r
}

// ---------------------------------------------------------------------------
// Lines
// ---------------------------------------------------------------------------

/// A line without the carriage return it ends in.
pub open spec fn without_return(s: Seq<char>) -> Seq<char> {
    if s.len() > 0 && s.last() == '\r' {
        s.drop_last()
    } else {
        s
    }
}

/// The lines of `s`. A line ends in a line feed, or a carriage return and a line feed; the
/// last may end in neither.
pub open spec fn lines(s: Seq<char>) -> Seq<Seq<char>>
    decreases s.len(),
{
    if s.len() == 0 {
        Seq::empty()
    } else {
        match cut(s, '\n') {
            Some((a, b)) => if b.len() < s.len() {
                seq![without_return(a)] + lines(b)
            } else {
                seq![s]
            },
            None => seq![s],
        }
    }
}

/// Splits `s` into lines.
pub fn split_lines(s: &str) -> (r: Vec<String>)
    ensures
        views(r@) == lines(s@),
{
    let v = chars_of(s);
    let n: usize = v.len();
    let mut r: Vec<String> = Vec::new();
    let mut i: usize = 0;
    proof {
        assert(s@.skip(0) =~= s@);
        assert(views(r@) + lines(s@) =~= lines(s@));
    }
    while i < n
        invariant
            v@ == s@,
            n == v@.len(),
            i <= n,
            views(r@) + lines(s@.skip(i as int)) == lines(s@),
        decreases n - i,
    {
        let ghost rest = s@.skip(i as int);
        let ghost had = r@;
        match find_from(&v, '\n', i) {
            Some(j) => {
                let end: usize = if j > i && v[j - 1] == '\r' {
                    j - 1
                } else {
                    j
                };
                let line = string_of(&v, i, end);
                r.push(line);
                proof {
                    assert(first_at(rest, '\n', j - i));
                    lemma_cut_at(rest, '\n', j - i);
                    assert(rest.skip(j - i + 1) =~= s@.skip(j + 1));
                    assert(without_return(rest.take(j - i)) =~= line@);
                    assert(views(r@) =~= views(had).push(line@));
                    assert(views(r@) + lines(s@.skip(j + 1)) =~= views(had) + (seq![line@] + lines(
                        s@.skip(j + 1),
                    )));
                }
                i = j + 1;
            },
            None => {
                let line = string_of(&v, i, n);
                r.push(line);
                proof {
                    assert(line@ =~= rest);
                    assert(!rest.contains('\n')) by {
                        assert forall|k: int| 0 <= k < rest.len() implies rest[k] != '\n' by {
                            assert(rest[k] == s@[i + k]);
                        }
                    }
                    assert(views(r@) =~= views(had).push(line@));
                    assert(s@.skip(n as int) =~= Seq::<char>::empty());
                    assert(views(r@) + lines(s@.skip(n as int)) =~= views(had) + seq![line@]);
                }
                i = n;
            },
        }
    }
    assert(s@.skip(i as int) =~= Seq::<char>::empty());
    assert(views(r@) + lines(s@.skip(i as int)) =~= views(r@));
    r
}

// ---------------------------------------------------------------------------
// Laws
// ---------------------------------------------------------------------------

/// What stands before the first `c` and what stands after it are the two parts of a cut; a text
/// without it cannot be cut.
pub proof fn law_cut_parts(a: Seq<char>, c: char, b: Seq<char>)
    requires
        !a.contains(c),
    ensures
        cut(a.push(c) + b, c) == Some((a, b)),
        cut(a, c) is None,
{
    let s = a.push(c) + b;
    let i = a.len() as int;
    assert(s[i] == c);
    assert forall|j: int| 0 <= j < i implies s[j] != c by {
        assert(s[j] == a[j]);
    }
    assert(first_at(s, c, i));
    lemma_cut_at(s, c, i);
    assert(s.take(i) =~= a);
    assert(s.skip(i + 1) =~= b);
}

/// A prefix is found, and what follows it is the rest; a text that does not start with it has no
/// rest.
pub proof fn law_prefix_and_rest(prefix: Seq<char>, rest: Seq<char>, s: Seq<char>)
    ensures
        starts(prefix + rest, prefix),
        after(prefix + rest, prefix) == Some(rest),
        after(s, prefix) is Some <==> starts(s, prefix),
        after(s, prefix) matches Some(r) ==> s == prefix + r,
{
    assert((prefix + rest).subrange(0, prefix.len() as int) =~= prefix);
    assert((prefix + rest).skip(prefix.len() as int) =~= rest);
    if starts(s, prefix) {
        let r = s.skip(prefix.len() as int);
        assert(s.subrange(0, prefix.len() as int) + r =~= s);
    }
}

/// A text is split at every `c`: what stands before the first is a piece, and the rest is split
/// in the same way; a text without it is one piece.
pub proof fn law_pieces(a: Seq<char>, c: char, b: Seq<char>)
    requires
        !a.contains(c),
    ensures
        pieces(a.push(c) + b, c) == seq![a] + pieces(b, c),
        pieces(a, c) == seq![a],
{
    law_cut_parts(a, c, b);
}

/// A text is held where it stands, whatever is around it.
pub proof fn law_holds(a: Seq<char>, t: Seq<char>, b: Seq<char>)
    ensures
        holds(a + t + b, t),
{
    let s = a + t + b;
    let r = s.skip(a.len() as int);
    assert(r.subrange(0, t.len() as int) =~= t);
    assert(starts(r, t));
}

/// Trimming takes a character off the end as often as it stands there, and takes nothing else.
pub proof fn law_trimming(s: Seq<char>, c: char, suffix: Seq<char>)
    ensures
        trimmed(s.push(c), c) == trimmed(s, c),
        s.len() == 0 || s.last() != c ==> trimmed(s, c) == s,
        suffix.len() > 0 ==> trimmed_text(s + suffix, suffix) == trimmed_text(s, suffix),
        !ends(s, suffix) ==> trimmed_text(s, suffix) == s,
{
    assert(s.push(c).drop_last() =~= s);
    let t = s + suffix;
    let n = s.len() as int;
    assert(t.subrange(n, t.len() as int) =~= suffix);
    assert(ends(t, suffix));
    assert(t.take(n) =~= s);
}

/// White space is the space, the control characters from the tab to the carriage return and, past
/// the ASCII characters, those that Unicode says are.
pub proof fn law_white_space(c: char)
    ensures
        (c as int) < 0x80 ==> (is_space(c) <==> c == ' ' || '\t' <= c <= '\r'),
        0x80 <= c as int ==> (is_space(c) <==> c as int == 0x85 || c as int == 0xa0 || c as int
            == 0x1680 || 0x2000 <= c as int <= 0x200a || c as int == 0x2028 || c as int == 0x2029
            || c as int == 0x202f || c as int == 0x205f || c as int == 0x3000),
{
}

/// White space separates words: it is none, and a word ends where it starts.
pub proof fn law_words(word: Seq<char>, space: char, rest: Seq<char>)
    requires
        word.len() > 0,
        forall|i: int| 0 <= i < word.len() ==> !is_space(#[trigger] word[i]),
        is_space(space),
    ensures
        words(word.push(space) + rest) == seq![word] + words(seq![space] + rest),
        words(seq![space] + rest) == words(rest),
        words(word) == seq![word],
        words(Seq::empty()) == Seq::<Seq<char>>::empty(),
{
    let n = word.len() as int;
    let s = word.push(space) + rest;
    assert forall|i: int| 0 <= i < n implies !is_space(#[trigger] s[i]) by {
        assert(s[i] == word[i]);
    }
    assert(s[n] == space);
    lemma_word_at(s, n);
    lemma_word_at(word, n);
    assert(!is_space(s[0]));
    assert(!is_space(word[0]));
    assert(s.take(n) =~= word);
    assert(s.skip(n) =~= seq![space] + rest);
    let t = seq![space] + rest;
    assert(t[0] == space);
    assert(t.drop_first() =~= rest);
    assert(word.take(n) =~= word);
    assert(word.skip(n) =~= Seq::<char>::empty());
    assert(words(word.skip(n)).len() == 0);
    assert(words(word) =~= seq![word] + words(word.skip(n)));
    assert(words(word) =~= seq![word]);
}

/// A line ends at a line feed, and is without a carriage return before it; the last line needs no
/// end, and an empty text has no line.
pub proof fn law_lines(line: Seq<char>, rest: Seq<char>)
    requires
        !line.contains('\n'),
    ensures
        line.len() == 0 || line.last() != '\r' ==> lines(line.push('\n') + rest) == seq![line]
            + lines(rest),
        lines(line.push('\r').push('\n') + rest) == seq![line] + lines(rest),
        line.len() > 0 ==> lines(line) == seq![line],
        lines(Seq::empty()) == Seq::<Seq<char>>::empty(),
{
    law_cut_parts(line, '\n', rest);
    let returned = line.push('\r');
    assert(!returned.contains('\n')) by {
        if returned.contains('\n') {
            let i = choose|i: int| 0 <= i < returned.len() && returned[i] == '\n';
            assert(line[i] == '\n');
        }
    }
    law_cut_parts(returned, '\n', rest);
    assert(returned.drop_last() =~= line);
}

} // verus!
