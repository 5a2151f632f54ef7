//! Text as sequences of characters: trimming, searching, splitting,
//! numbers in decimal and hexadecimal.

use vstd::prelude::*;
use vstd::string::*;

verus! {

/// `String::push` appends the given character to the end of the string.
pub assume_specification[ String::push ](s: &mut String, c: char)
    ensures
        final(s)@ == old(s)@.push(c),
;

// ---------------------------------------------------------------------------
// Views of optional and repeated text
// ---------------------------------------------------------------------------

/// The characters of an optional string.
pub open spec fn opt_text(o: Option<String>) -> Option<Seq<char>> {
    match o {
        Some(s) => Some(s@),
        None => None,
    }
}

/// The characters of an optional text.
pub open spec fn opt_str(o: Option<&str>) -> Option<Seq<char>> {
    match o {
        Some(s) => Some(s@),
        None => None,
    }
}

/// The characters of an optional string, or none.
pub open spec fn or_empty(o: Option<Seq<char>>) -> Seq<char> {
    match o {
        Some(s) => s,
        None => Seq::empty(),
    }
}

/// An optional string, or the empty one.
pub fn or_empty_of(o: Option<String>) -> (r: String)
    ensures
        r@ == or_empty(opt_text(o)),
{
    match o {
        Some(s) => s,
        None => {
            let s = String::new();
            proof {
                assert(s@ =~= Seq::<char>::empty());
            }
            s
        },
    }
}

/// The characters of each optional string of a sequence.
pub open spec fn opt_texts(v: Seq<Option<String>>) -> Seq<Option<Seq<char>>> {
    v.map_values(|o: Option<String>| opt_text(o))
}

/// The characters of each string of a sequence.
pub open spec fn texts(v: Seq<String>) -> Seq<Seq<char>> {
    v.map_values(|s: String| s@)
}

/// The characters of a string or of a failure.
pub open spec fn result_text(r: Result<String, String>) -> Result<Seq<char>, Seq<char>> {
    match r {
        Ok(s) => Ok(s@),
        Err(e) => Err(e@),
    }
}

/// A copy of an optional string.
pub fn clone_opt(o: &Option<String>) -> (r: Option<String>)
    ensures
        r == *o,
{
    match o {
        Some(s) => Some(s.clone()),
        None => None,
    }
}

// ---------------------------------------------------------------------------
// Comparing and joining
// ---------------------------------------------------------------------------

/// Whether two texts hold the same characters.
pub fn same(a: &str, b: &str) -> (r: bool)
    ensures
        r == (a@ == b@),
{
    a.to_string() == b.to_string()
}

/// Whether an optional string is present and equal to `b`.
pub fn is_text(a: &Option<String>, b: &str) -> (r: bool)
    ensures
        r == (opt_text(*a) == Some(b@)),
{
    match a {
        Some(s) => same(s.as_str(), b),
        None => false,
    }
}

/// `a` followed by `b`.
pub fn join2(a: &str, b: &str) -> (r: String)
    ensures
        r@ == a@ + b@,
{
    let mut s = a.to_string();
    s.append(b);
    s
}

/// `a`, `b` and `c` one after the other.
pub fn join3(a: &str, b: &str, c: &str) -> (r: String)
    ensures
        r@ == a@ + b@ + c@,
{
    let mut s = a.to_string();
    s.append(b);
    s.append(c);
    s
}

/// The characters of a text, in order.
pub fn chars_of(s: &str) -> (r: Vec<char>)
    ensures
        r@ == s@,
{
    let mut out: Vec<char> = Vec::new();
    let n: usize = s.unicode_len();
    let mut it = s.chars();
    let mut i: usize = 0;
    while i < n
        invariant
            n == s@.len(),
            i <= n,
            vstd::std_specs::iter::IteratorSpec::remaining(&it) == s@.skip(i as int),
            vstd::std_specs::iter::IteratorSpec::obeys_prophetic_iter_laws(&it),
            out@ == s@.take(i as int),
        decreases n - i,
    {
        match it.next() {
            Some(c) => {
                out.push(c);
                proof {
                    assert(s@.skip(i as int).drop_first() =~= s@.skip(i + 1));
                    assert(s@.take(i + 1) =~= s@.take(i as int).push(c));
                }
            },
            None => {},
        }
        i = i + 1;
    }
    proof {
        assert(s@.take(n as int) =~= s@);
    }
    out
}

/// The string made of the characters `v[from..to]`.
pub fn string_of(v: &Vec<char>, from: usize, to: usize) -> (r: String)
    requires
        from <= to <= v@.len(),
    ensures
        r@ == v@.subrange(from as int, to as int),
{
    let mut s = String::new();
    let mut i: usize = from;
    while i < to
        invariant
            from <= i <= to <= v@.len(),
            s@ == v@.subrange(from as int, i as int),
        decreases to - i,
    {
        s.push(v[i]);
        proof {
            assert(v@.subrange(from as int, i + 1) =~= v@.subrange(from as int, i as int).push(
                v@[i as int],
            ));
        }
        i = i + 1;
    }
    s
}

// ---------------------------------------------------------------------------
// Trimming
// ---------------------------------------------------------------------------

/// `s` without the run of `c` at its end.
pub open spec fn trim_end(s: Seq<char>, c: char) -> Seq<char>
    decreases s.len(),
{
    if s.len() > 0 && s.last() == c {
        trim_end(s.drop_last(), c)
    } else {
        s
    }
}

/// `s` without the run of `c` at its start.
pub open spec fn trim_start(s: Seq<char>, c: char) -> Seq<char>
    decreases s.len(),
{
    if s.len() > 0 && s.first() == c {
        trim_start(s.drop_first(), c)
    } else {
        s
    }
}

/// The characters with the Unicode property White_Space.
pub open spec fn is_space(c: char) -> bool {
    let u = c as u32;
    ||| 0x9 <= u <= 0xd
    ||| u == 0x20
    ||| u == 0x85
    ||| u == 0xa0
    ||| u == 0x1680
    ||| 0x2000 <= u <= 0x200a
    ||| u == 0x2028
    ||| u == 0x2029
    ||| u == 0x202f
    ||| u == 0x205f
    ||| u == 0x3000
}

/// `s` without the white space at its end.
pub open spec fn trim_space_end(s: Seq<char>) -> Seq<char>
    decreases s.len(),
{
    if s.len() > 0 && is_space(s.last()) {
        trim_space_end(s.drop_last())
    } else {
        s
    }
}

/// `s` without the white space at its start.
pub open spec fn trim_space_start(s: Seq<char>) -> Seq<char>
    decreases s.len(),
{
    if s.len() > 0 && is_space(s.first()) {
        trim_space_start(s.drop_first())
    } else {
        s
    }
}

/// `s` without the white space at either end.
pub open spec fn trim(s: Seq<char>) -> Seq<char> {
    trim_space_start(trim_space_end(s))
}

/// What a trimmed text is: a prefix that does not end in `c`.
pub proof fn lemma_trim_end(s: Seq<char>, c: char)
    ensures
        trim_end(s, c).len() <= s.len(),
        trim_end(s, c) == s.take(trim_end(s, c).len() as int),
        trim_end(s, c).len() > 0 ==> trim_end(s, c).last() != c,
    decreases s.len(),
{
    if s.len() > 0 && s.last() == c {
        lemma_trim_end(s.drop_last(), c);
        assert(trim_end(s, c) =~= s.take(trim_end(s, c).len() as int));
    } else {
        assert(s.take(s.len() as int) =~= s);
    }
}

/// A text without white space at its start begins with another character.
pub proof fn lemma_trim_space_start(s: Seq<char>)
    ensures
        trim_space_start(s).len() > 0 ==> !is_space(trim_space_start(s).first()),
    decreases s.len(),
{
    if s.len() > 0 && is_space(s.first()) {
        lemma_trim_space_start(s.drop_first());
    }
}

/// What a text without white space at its ends is: a part of the whole, with
/// another character at either end.
pub proof fn lemma_trim(s: Seq<char>)
    ensures
        exists|i: int, j: int| 0 <= i <= j <= s.len() && trim(s) == #[trigger] s.subrange(i, j),
        trim(s).len() > 0 ==> !is_space(trim(s).first()) && !is_space(trim(s).last()),
{
    lemma_trim_space_end(s);
    let t = trim_space_end(s);
    let j = t.len() as int;
    lemma_trim_space_part(t);
    let i = t.len() - trim(s).len();
    assert(trim(s) =~= s.subrange(i, j));
    lemma_trim_space_start(t);
}

/// A text without white space at its end is a prefix that ends otherwise.
proof fn lemma_trim_space_end(s: Seq<char>)
    ensures
        trim_space_end(s).len() <= s.len(),
        trim_space_end(s) == s.take(trim_space_end(s).len() as int),
        trim_space_end(s).len() > 0 ==> !is_space(trim_space_end(s).last()),
    decreases s.len(),
{
    if s.len() > 0 && is_space(s.last()) {
        lemma_trim_space_end(s.drop_last());
        assert(trim_space_end(s) =~= s.take(trim_space_end(s).len() as int));
    } else {
        assert(s.take(s.len() as int) =~= s);
    }
}

/// A text without white space at its start is the rest of the whole.
proof fn lemma_trim_space_part(s: Seq<char>)
    ensures
        trim_space_start(s).len() <= s.len(),
        trim_space_start(s) == s.skip(s.len() - trim_space_start(s).len()),
    decreases s.len(),
{
    if s.len() > 0 && is_space(s.first()) {
        lemma_trim_space_part(s.drop_first());
        assert(trim_space_start(s) =~= s.skip(s.len() - trim_space_start(s).len()));
    } else {
        assert(s.skip(0) =~= s);
    }
}

/// Drops the run of `c` at the end of `s`.
pub fn trim_end_of<'a>(s: &'a str, c: char) -> (r: &'a str)
    ensures
        r@ == trim_end(s@, c),
{
    let mut k: usize = s.unicode_len();
    proof {
        assert(s@.take(k as int) =~= s@);
    }
    while k > 0 && s.get_char(k - 1) == c
        invariant
            k <= s@.len(),
            trim_end(s@, c) == trim_end(s@.take(k as int), c),
        decreases k,
    {
        proof {
            assert(s@.take(k as int).drop_last() =~= s@.take(k - 1));
        }
        k = k - 1;
    }
    proof {
        assert(s@.subrange(0, k as int) =~= s@.take(k as int));
    }
    s.substring_char(0, k)
}

/// Drops the run of `c` at the start of `s`.
pub fn trim_start_of<'a>(s: &'a str, c: char) -> (r: &'a str)
    ensures
        r@ == trim_start(s@, c),
{
    let n: usize = s.unicode_len();
    let mut k: usize = 0;
    proof {
        assert(s@.skip(0) =~= s@);
    }
    while k < n && s.get_char(k) == c
        invariant
            k <= n,
            n == s@.len(),
            trim_start(s@, c) == trim_start(s@.skip(k as int), c),
        decreases n - k,
    {
        proof {
            assert(s@.skip(k as int).drop_first() =~= s@.skip(k + 1));
        }
        k = k + 1;
    }
    proof {
        assert(s@.subrange(k as int, n as int) =~= s@.skip(k as int));
    }
    s.substring_char(k, n)
}

/// Whether `c` is white space.
pub fn is_space_char(c: char) -> (r: bool)
    ensures
        r == is_space(c),
{
    let u: u32 = c as u32;
    (0x9 <= u && u <= 0xd) || u == 0x20 || u == 0x85 || u == 0xa0 || u == 0x1680 || (0x2000 <= u
        && u <= 0x200a) || u == 0x2028 || u == 0x2029 || u == 0x202f || u == 0x205f || u == 0x3000
}

/// Drops the white space at either end of `s`.
pub fn trim_of<'a>(s: &'a str) -> (r: &'a str)
    ensures
        r@ == trim(s@),
{
    let n: usize = s.unicode_len();
    let mut k: usize = n;
    proof {
        assert(s@.take(k as int) =~= s@);
    }
    while k > 0 && is_space_char(s.get_char(k - 1))
        invariant
            k <= s@.len(),
            trim_space_end(s@) == trim_space_end(s@.take(k as int)),
        decreases k,
    {
        proof {
            assert(s@.take(k as int).drop_last() =~= s@.take(k - 1));
        }
        k = k - 1;
    }
    let ghost kept = s@.take(k as int);
    let mut j: usize = 0;
    proof {
        assert(kept.skip(0) =~= kept);
    }
    while j < k && is_space_char(s.get_char(j))
        invariant
            j <= k,
            k <= s@.len(),
            kept == s@.take(k as int),
            trim_space_start(kept) == trim_space_start(kept.skip(j as int)),
        decreases k - j,
    {
        proof {
            assert(kept.skip(j as int).drop_first() =~= kept.skip(j + 1));
        }
        j = j + 1;
    }
    proof {
        assert(s@.subrange(j as int, k as int) =~= kept.skip(j as int));
    }
    s.substring_char(j, k)
}

// ---------------------------------------------------------------------------
// Searching and splitting
// ---------------------------------------------------------------------------

/// The position of the first `c` in `s`, or the length of `s`.
pub open spec fn find(s: Seq<char>, c: char) -> int
    decreases s.len(),
{
    if s.len() == 0 || s.first() == c {
        0
    } else {
        1 + find(s.drop_first(), c)
    }
}

/// What stands in `s` before its first `c` (all of `s` without one).
pub open spec fn before(s: Seq<char>, c: char) -> Seq<char> {
    s.take(find(s, c))
}

/// What stands in `s` after its first `c`; `None` without one.
pub open spec fn after(s: Seq<char>, c: char) -> Option<Seq<char>> {
    if find(s, c) < s.len() {
        Some(s.skip(find(s, c) + 1))
    } else {
        None
    }
}

/// The first `c` is the one that no `c` stands before.
pub proof fn lemma_find(s: Seq<char>, c: char, k: int)
    requires
        0 <= k <= s.len(),
        forall|j: int| 0 <= j < k ==> s[j] != c,
        k < s.len() ==> s[k] == c,
    ensures
        find(s, c) == k,
    decreases s.len(),
{
    if k > 0 {
        assert(s[0] != c);
        let t = s.drop_first();
        assert forall|j: int| 0 <= j < k - 1 implies t[j] != c by {
            assert(t[j] == s[j + 1]);
        }
        lemma_find(t, c, k - 1);
    }
}

/// The position of the first `c` lies in the text or at its end, and a `c`
/// stands there if it lies in the text.
pub proof fn lemma_find_range(s: Seq<char>, c: char)
    ensures
        0 <= find(s, c) <= s.len(),
        forall|j: int| 0 <= j < find(s, c) ==> #[trigger] s[j] != c,
        find(s, c) < s.len() ==> s[find(s, c)] == c,
    decreases s.len(),
{
    if s.len() > 0 && s.first() != c {
        let t = s.drop_first();
        lemma_find_range(t, c);
        assert forall|j: int| 0 <= j < find(s, c) implies #[trigger] s[j] != c by {
            if j > 0 {
                assert(t[j - 1] == s[j]);
            }
        }
    }
}

/// The position of the first `c` in `s`, or the length of `s`.
pub fn find_in(s: &str, c: char) -> (r: usize)
    ensures
        r == find(s@, c),
        r <= s@.len(),
{
    let v = chars_of(s);
    let mut i: usize = 0;
    while i < v.len() && v[i] != c
        invariant
            i <= v@.len(),
            forall|j: int| 0 <= j < i ==> v@[j] != c,
        decreases v@.len() - i,
    {
        i = i + 1;
    }
    proof {
        lemma_find(s@, c, i as int);
    }
    i
}

/// What stands in `s` before its first `c`.
pub fn before_of<'a>(s: &'a str, c: char) -> (r: &'a str)
    ensures
        r@ == before(s@, c),
{
    let k: usize = find_in(s, c);
    proof {
        assert(s@.subrange(0, k as int) =~= s@.take(k as int));
    }
    s.substring_char(0, k)
}

/// What stands in `s` after its first `c`.
pub fn after_of<'a>(s: &'a str, c: char) -> (r: Option<&'a str>)
    ensures
        match r {
            Some(t) => after(s@, c) == Some(t@),
            None => after(s@, c) is None,
        },
{
    let n: usize = s.unicode_len();
    let k: usize = find_in(s, c);
    if k < n {
        proof {
            assert(s@.subrange(k + 1, n as int) =~= s@.skip(k + 1));
        }
        Some(s.substring_char(k + 1, n))
    } else {
        None
    }
}

/// What stands in `s` between one `c` and the next.
pub open spec fn pieces(s: Seq<char>, c: char) -> Seq<Seq<char>>
    decreases s.len(),
{
    proof {
        lemma_find_range(s, c);
    }
    match after(s, c) {
        Some(rest) => seq![before(s, c)] + pieces(rest, c),
        None => seq![s],
    }
}

/// The first piece is what stands before the first `c`.
pub proof fn lemma_pieces(a: Seq<char>, c: char, rest: Seq<char>)
    requires
        !a.contains(c),
    ensures
        pieces(a, c) == seq![a],
        pieces(a + seq![c] + rest, c) == seq![a] + pieces(rest, c),
{
    let s = a + seq![c] + rest;
    assert forall|j: int| 0 <= j < a.len() implies a[j] != c by {
        assert(a.contains(a[j]));
    }
    lemma_find(a, c, a.len() as int);
    assert forall|j: int| 0 <= j < a.len() implies s[j] != c by {
        assert(s[j] == a[j]);
    }
    lemma_find(s, c, a.len() as int);
    assert(before(s, c) =~= a);
    assert(s.skip(a.len() as int + 1) =~= rest);
}

/// Cuts `s` at every `c`.
pub fn pieces_of(s: &str, c: char) -> (r: Vec<String>)
    ensures
        texts(r@) == pieces(s@, c),
{
    let mut out: Vec<String> = Vec::new();
    let mut rest: &str = s;
    proof {
        assert(texts(out@) + pieces(s@, c) =~= pieces(s@, c));
    }
    loop
        invariant
            texts(out@) + pieces(rest@, c) == pieces(s@, c),
        decreases rest@.len(),
    {
        let ghost done = texts(out@);
        let ghost here = rest@;
        let head = before_of(rest, c).to_string();
        proof {
            lemma_find_range(here, c);
        }
        match after_of(rest, c) {
            Some(t) => {
                out.push(head);
                proof {
                    assert(texts(out@) =~= done.push(before(here, c)));
                    assert(texts(out@) + pieces(t@, c) =~= done + pieces(here, c));
                }
                rest = t;
            },
            None => {
                out.push(head);
                proof {
                    assert(before(here, c) =~= here);
                    assert(texts(out@) =~= done + pieces(here, c));
                }
                return out;
            },
        }
    }
}

/// Whether `s` begins with `p`.
pub open spec fn starts_with(s: Seq<char>, p: Seq<char>) -> bool {
    p.len() <= s.len() && s.take(p.len() as int) == p
}

/// Whether `needle` stands somewhere in `s`.
pub open spec fn has(s: Seq<char>, needle: Seq<char>) -> bool {
    exists|i: int| #[trigger] occurs_at(s, needle, i)
}

/// Whether `needle` stands in `s` at position `i`.
pub open spec fn occurs_at(s: Seq<char>, needle: Seq<char>, i: int) -> bool {
    0 <= i && i + needle.len() <= s.len() && s.subrange(i, i + needle.len()) == needle
}

/// The first position at which `needle` stands in `s`.
pub open spec fn find_text(s: Seq<char>, needle: Seq<char>) -> Option<int>
    decreases s.len(),
{
    if starts_with(s, needle) {
        Some(0)
    } else if s.len() == 0 {
        None
    } else {
        match find_text(s.drop_first(), needle) {
            Some(k) => Some(k + 1),
            None => None,
        }
    }
}

/// The first position of a text is the one that no other stands before.
pub proof fn lemma_find_text(s: Seq<char>, needle: Seq<char>, k: int)
    requires
        occurs_at(s, needle, k),
        forall|j: int| 0 <= j < k ==> !#[trigger] occurs_at(s, needle, j),
    ensures
        find_text(s, needle) == Some(k),
    decreases s.len(),
{
    if k == 0 {
        assert(s.subrange(0, needle.len() as int) =~= s.take(needle.len() as int));
    } else {
        assert(!occurs_at(s, needle, 0));
        assert(needle.len() <= s.len() ==> s.subrange(0, needle.len() as int) =~= s.take(
            needle.len() as int,
        ));
        let t = s.drop_first();
        assert(t.subrange(k - 1, k - 1 + needle.len()) =~= s.subrange(k, k + needle.len()));
        assert forall|j: int| 0 <= j < k - 1 implies !#[trigger] occurs_at(t, needle, j) by {
            assert(!occurs_at(s, needle, j + 1));
            assert(j + needle.len() <= t.len() ==> t.subrange(j, j + needle.len()) =~= s.subrange(
                j + 1,
                j + 1 + needle.len(),
            ));
        }
        lemma_find_text(t, needle, k - 1);
    }
}

/// Where a text is found it stands, and nowhere before.
pub proof fn lemma_find_text_range(s: Seq<char>, needle: Seq<char>)
    ensures
        match find_text(s, needle) {
            Some(k) => occurs_at(s, needle, k) && forall|j: int|
                0 <= j < k ==> !#[trigger] occurs_at(s, needle, j),
            None => !(has(s, needle)),
        },
    decreases s.len(),
{
    assert(needle.len() <= s.len() ==> s.subrange(0, needle.len() as int) =~= s.take(
        needle.len() as int,
    ));
    if !starts_with(s, needle) && s.len() > 0 {
        let t = s.drop_first();
        lemma_find_text_range(t, needle);
        assert forall|j: int| j > 0 implies #[trigger] occurs_at(s, needle, j) == occurs_at(
            t,
            needle,
            j - 1,
        ) by {
            assert(j + needle.len() <= s.len() ==> t.subrange(j - 1, j - 1 + needle.len())
                =~= s.subrange(j, j + needle.len()));
        }
        match find_text(t, needle) {
            Some(k) => {
                assert(occurs_at(s, needle, k + 1));
            },
            None => {},
        }
    }
}

/// Whether `p` stands in `s` at position `at`.
fn matches_at(s: &Vec<char>, p: &Vec<char>, at: usize) -> (r: bool)
    requires
        at <= s@.len(),
    ensures
        r == occurs_at(s@, p@, at as int),
{
    let n: usize = s.len();
    if n - at < p.len() {
        return false;
    }
    let mut i: usize = 0;
    while i < p.len()
        invariant
            n == s@.len(),
            i <= p@.len(),
            at + p@.len() <= s@.len(),
            forall|j: int| 0 <= j < i ==> s@[at + j] == p@[j],
        decreases p@.len() - i,
    {
        if s[at + i] != p[i] {
            proof {
                let w = s@.subrange(at as int, at + p@.len());
                assert(w[i as int] == s@[at + i]);
            }
            return false;
        }
        i = i + 1;
    }
    proof {
        assert(s@.subrange(at as int, at + p@.len()) =~= p@);
    }
    true
}

/// Whether `s` begins with `p`.
pub fn begins(s: &str, p: &str) -> (r: bool)
    ensures
        r == starts_with(s@, p@),
{
    let sv = chars_of(s);
    let pv = chars_of(p);
    proof {
        assert(p@.len() <= s@.len() ==> s@.subrange(0, p@.len() as int) =~= s@.take(
            p@.len() as int,
        ));
    }
    matches_at(&sv, &pv, 0)
}

/// Whether `needle` stands somewhere in `s`.
pub fn contains(s: &str, needle: &str) -> (r: bool)
    ensures
        r == has(s@, needle@),
{
    let sv = chars_of(s);
    let nv = chars_of(needle);
    let mut i: usize = 0;
    loop
        invariant
            sv@ == s@,
            nv@ == needle@,
            i <= sv@.len(),
            forall|j: int| 0 <= j < i ==> !#[trigger] occurs_at(s@, needle@, j),
        decreases sv@.len() - i,
    {
        if matches_at(&sv, &nv, i) {
            return true;
        }
        if i == sv.len() {
            return false;
        }
        i = i + 1;
    }
}

/// The first position at which `needle` stands in `s`.
pub fn find_text_in(s: &str, needle: &str) -> (r: Option<usize>)
    ensures
        match r {
            Some(k) => find_text(s@, needle@) == Some(k as int) && k + needle@.len() <= s@.len(),
            None => find_text(s@, needle@) is None,
        },
{
    let sv = chars_of(s);
    let nv = chars_of(needle);
    let mut i: usize = 0;
    loop
        invariant
            sv@ == s@,
            nv@ == needle@,
            i <= sv@.len(),
            forall|j: int| 0 <= j < i ==> !#[trigger] occurs_at(s@, needle@, j),
        decreases sv@.len() - i,
    {
        if matches_at(&sv, &nv, i) {
            proof {
                lemma_find_text(s@, needle@, i as int);
            }
            return Some(i);
        }
        if i == sv.len() {
            proof {
                lemma_find_text_range(s@, needle@);
            }
            return None;
        }
        i = i + 1;
    }
}

// ---------------------------------------------------------------------------
// ASCII case
// ---------------------------------------------------------------------------

/// The lower-case form of an ASCII letter, any other character unchanged.
pub open spec fn lower_char(c: char) -> char {
    if 'A' <= c <= 'Z' {
        ((c as u32 + 32) as u32) as char
    } else {
        c
    }
}

/// `s` with its ASCII letters in lower case.
pub open spec fn lower(s: Seq<char>) -> Seq<char> {
    s.map_values(|c: char| lower_char(c))
}

/// The lower-case form of an ASCII letter.
fn lowered(c: char) -> (r: char)
    ensures
        r == lower_char(c),
{
    let u: u32 = c as u32;
    if 0x41 <= u && u <= 0x5a {
        let b: u8 = u as u8;
        (b + 32) as char
    } else {
        c
    }
}

/// `s` with its ASCII letters in lower case.
pub fn lower_of(s: &str) -> (r: String)
    ensures
        r@ == lower(s@),
{
    let v = chars_of(s);
    let mut out = String::new();
    let mut i: usize = 0;
    while i < v.len()
        invariant
            v@ == s@,
            i <= v@.len(),
            out@ == lower(s@).take(i as int),
        decreases v@.len() - i,
    {
        out.push(lowered(v[i]));
        proof {
            assert(lower(s@).take(i + 1) =~= lower(s@).take(i as int).push(
                lower_char(s@[i as int]),
            ));
        }
        i = i + 1;
    }
    proof {
        assert(lower(s@).take(i as int) =~= lower(s@));
    }
    out
}

// ---------------------------------------------------------------------------
// Numbers
// ---------------------------------------------------------------------------

/// The digit with the value `d` in bases up to sixteen, in lower case.
pub open spec fn digit(d: int) -> char {
    if d == 0 {
        '0'
    } else if d == 1 {
        '1'
    } else if d == 2 {
        '2'
    } else if d == 3 {
        '3'
    } else if d == 4 {
        '4'
    } else if d == 5 {
        '5'
    } else if d == 6 {
        '6'
    } else if d == 7 {
        '7'
    } else if d == 8 {
        '8'
    } else if d == 9 {
        '9'
    } else if d == 10 {
        'a'
    } else if d == 11 {
        'b'
    } else if d == 12 {
        'c'
    } else if d == 13 {
        'd'
    } else if d == 14 {
        'e'
    } else {
        'f'
    }
}

/// The digit with the value `d`.
fn digit_of(d: u8) -> (r: char)
    requires
        d < 16,
    ensures
        r == digit(d as int),
{
    match d {
        0 => '0',
        1 => '1',
        2 => '2',
        3 => '3',
        4 => '4',
        5 => '5',
        6 => '6',
        7 => '7',
        8 => '8',
        9 => '9',
        10 => 'a',
        11 => 'b',
        12 => 'c',
        13 => 'd',
        14 => 'e',
        _ => 'f',
    }
}

/// `n` in decimal, without leading zeros.
pub open spec fn decimal(n: nat) -> Seq<char>
    decreases n,
{
    if n < 10 {
        seq![digit(n as int)]
    } else {
        decimal(n / 10).push(digit((n % 10) as int))
    }
}

/// `i` in decimal, with a minus sign where it is negative.
pub open spec fn decimal_int(i: int) -> Seq<char> {
    if i < 0 {
        seq!['-'] + decimal((-i) as nat)
    } else {
        decimal(i as nat)
    }
}

/// Appends `n` in decimal.
fn push_decimal(s: &mut String, n: u128)
    ensures
        final(s)@ == old(s)@ + decimal(n as nat),
    decreases n,
{
    let ghost before = s@;
    if n >= 10 {
        push_decimal(s, n / 10);
    }
    let d: u8 = (n % 10) as u8;
    s.push(digit_of(d));
    proof {
        assert(s@ =~= before + decimal(n as nat));
    }
}

/// `n` in decimal.
pub fn decimal_of(n: u128) -> (r: String)
    ensures
        r@ == decimal(n as nat),
{
    let mut s = String::new();
    push_decimal(&mut s, n);
    proof {
        assert(Seq::<char>::empty() + decimal(n as nat) =~= decimal(n as nat));
    }
    s
}

/// `i` in decimal, with a minus sign where it is negative.
pub fn decimal_int_of(i: i64) -> (r: String)
    ensures
        r@ == decimal_int(i as int),
{
    if i < 0 {
        let mut s = String::new();
        s.push('-');
        let wide: i128 = i as i128;
        let m: u128 = (-wide) as u128;
        push_decimal(&mut s, m);
        proof {
            assert(s@ =~= decimal_int(i as int));
        }
        s
    } else {
        decimal_of(i as u128)
    }
}

/// Whether `c` is a decimal digit.
pub open spec fn is_digit(c: char) -> bool {
    0x30 <= c as u32 <= 0x39
}

/// Whether every character of `s` is a decimal digit.
pub open spec fn all_digits(s: Seq<char>) -> bool {
    forall|i: int| 0 <= i < s.len() ==> is_digit(#[trigger] s[i])
}

/// The number that the decimal digits of `s` write.
pub open spec fn digits_value(s: Seq<char>) -> nat
    decreases s.len(),
{
    if s.len() == 0 {
        0
    } else {
        digits_value(s.drop_last()) * 10 + (s.last() as u32 - '0' as u32) as nat
    }
}

/// The number that `s` writes: decimal digits, with at most one plus sign
/// before them, of a value that fits in 64 bits.
pub open spec fn parse_u64(s: Seq<char>) -> Option<u64> {
    let d = if s.len() > 0 && s.first() == '+' {
        s.drop_first()
    } else {
        s
    };
    if d.len() > 0 && all_digits(d) && digits_value(d) <= u64::MAX {
        Some(digits_value(d) as u64)
    } else {
        None
    }
}

/// A prefix writes no more than the whole.
proof fn lemma_digits_value_prefix(s: Seq<char>, k: int)
    requires
        all_digits(s),
        0 <= k <= s.len(),
    ensures
        digits_value(s.take(k)) <= digits_value(s),
    decreases s.len() - k,
{
    if k < s.len() {
        lemma_digits_value_prefix(s, k + 1);
        assert(s.take(k + 1).drop_last() =~= s.take(k));
        assert(is_digit(s[k]));
    } else {
        assert(s.take(k) =~= s);
    }
}

/// A number in decimal has digits alone, and they write the number.
pub proof fn lemma_decimal(n: nat)
    ensures
        decimal(n).len() > 0,
        all_digits(decimal(n)),
        digits_value(decimal(n)) == n,
    decreases n,
{
    if n < 10 {
        let s = decimal(n);
        assert(s.drop_last() =~= Seq::<char>::empty());
        reveal_with_fuel(digits_value, 2);
    } else {
        lemma_decimal(n / 10);
        let s = decimal(n);
        assert(s.drop_last() =~= decimal(n / 10));
        assert forall|i: int| 0 <= i < s.len() implies is_digit(#[trigger] s[i]) by {
            if i < s.len() - 1 {
                assert(s[i] == decimal(n / 10)[i]);
            }
        }
    }
}

/// An integer in decimal has digits alone after its sign, and no two integers
/// are written alike.
pub proof fn lemma_decimal_int(a: int, b: int)
    ensures
        decimal_int(a).len() > 0,
        forall|i: int|
            0 <= i < decimal_int(a).len() ==> is_digit(#[trigger] decimal_int(a)[i]) || (i == 0
                && decimal_int(a)[i] == '-'),
        decimal_int(a) == decimal_int(b) ==> a == b,
{
    let m = if a < 0 {
        (-a) as nat
    } else {
        a as nat
    };
    let n = if b < 0 {
        (-b) as nat
    } else {
        b as nat
    };
    lemma_decimal(m);
    lemma_decimal(n);
    let s = decimal_int(a);
    let t = decimal_int(b);
    assert forall|i: int| 0 <= i < s.len() implies is_digit(#[trigger] s[i]) || (i == 0 && s[i]
        == '-') by {
        if a < 0 {
            if i > 0 {
                assert(s[i] == decimal(m)[i - 1]);
            }
        } else {
            assert(s[i] == decimal(m)[i]);
        }
    }
    if s == t {
        if a < 0 && b >= 0 {
            assert(s[0] == '-');
            assert(is_digit(decimal(n)[0]));
        }
        if a >= 0 && b < 0 {
            assert(t[0] == '-');
            assert(is_digit(decimal(m)[0]));
        }
        if a < 0 && b < 0 {
            assert(s.skip(1) =~= decimal(m));
            assert(t.skip(1) =~= decimal(n));
        }
    }
}

/// One more digit of a number.
proof fn lemma_digits_step(d: Seq<char>, k: int)
    requires
        0 <= k < d.len(),
    ensures
        digits_value(d.take(k + 1)) == digits_value(d.take(k)) * 10 + (d[k] as u32
            - '0' as u32) as nat,
        all_digits(d.take(k)) && is_digit(d[k]) ==> all_digits(d.take(k + 1)),
        all_digits(d) ==> is_digit(d[k]),
{
    let wider = d.take(k + 1);
    assert(wider.drop_last() =~= d.take(k));
    assert(wider.last() == d[k]);
    if all_digits(d.take(k)) && is_digit(d[k]) {
        assert forall|j: int| 0 <= j < wider.len() implies is_digit(#[trigger] wider[j]) by {
            if j < k {
                assert(wider[j] == d.take(k)[j]);
            }
        }
    }
}

/// The characters of `s` after the sign.
spec fn unsigned(s: Seq<char>) -> Seq<char> {
    if s.len() > 0 && s.first() == '+' {
        s.drop_first()
    } else {
        s
    }
}

/// Reads a number of 64 bits from its decimal digits.
pub fn parse_u64_of(s: &str) -> (r: Option<u64>)
    ensures
        r == parse_u64(s@),
{
    let v = chars_of(s);
    let n: usize = v.len();
    let start: usize = if n > 0 && v[0] == '+' {
        1
    } else {
        0
    };
    let ghost d = unsigned(s@);
    if start == n {
        return None;
    }
    let mut acc: u64 = 0;
    let mut i: usize = start;
    proof {
        assert(d =~= v@.skip(start as int));
        assert(d.take(0) =~= Seq::<char>::empty());
    }
    while i < n
        invariant
            n == v@.len(),
            start <= i <= n,
            start < n,
            d == v@.skip(start as int),
            d == unsigned(s@),
            all_digits(d.take(i - start)),
            acc == digits_value(d.take(i - start)),
        decreases n - i,
    {
        let c: char = v[i];
        let u: u32 = c as u32;
        proof {
            assert(d[i - start] == c);
            lemma_digits_step(d, i - start);
        }
        if u < 0x30 || u > 0x39 {
            return None;
        }
        let add: u64 = (u - 0x30) as u64;
        if acc > u64::MAX / 10 || acc * 10 > u64::MAX - add {
            proof {
                if all_digits(d) {
                    lemma_digits_value_prefix(d, i + 1 - start);
                }
            }
            return None;
        }
        acc = acc * 10 + add;
        i = i + 1;
    }
    proof {
        assert(d.take(i - start) =~= d);
    }
    Some(acc)
}

/// `n` in hexadecimal, sixteen digits.
pub open spec fn hex16(n: u64) -> Seq<char> {
    hex_digits(n as nat, 16)
}

/// The last `k` hexadecimal digits of `n`.
pub open spec fn hex_digits(n: nat, k: nat) -> Seq<char>
    decreases k,
{
    if k == 0 {
        Seq::empty()
    } else {
        hex_digits(n / 16, (k - 1) as nat).push(digit((n % 16) as int))
    }
}

/// Sixteen to the power `k`.
pub open spec fn hex_bound(k: nat) -> nat
    decreases k,
{
    if k == 0 {
        1
    } else {
        16 * hex_bound((k - 1) as nat)
    }
}

/// Whether the character is a hexadecimal digit in lower case.
pub open spec fn is_hex_digit(c: char) -> bool {
    is_digit(c) || 0x61 <= c as u32 <= 0x66
}

/// Every character of a number in hexadecimal is a digit.
pub proof fn lemma_hex_digits(n: nat, k: nat)
    ensures
        forall|i: int|
            0 <= i < hex_digits(n, k).len() ==> is_hex_digit(#[trigger] hex_digits(n, k)[i]),
    decreases k,
{
    if k > 0 {
        let head = hex_digits(n / 16, (k - 1) as nat);
        let all = hex_digits(n, k);
        lemma_hex_digits(n / 16, (k - 1) as nat);
        assert forall|i: int| 0 <= i < all.len() implies is_hex_digit(#[trigger] all[i]) by {
            if i < head.len() {
                assert(all[i] == head[i]);
            }
        }
    }
}

/// There are as many digits as asked for.
pub proof fn lemma_hex_len(n: nat, k: nat)
    ensures
        hex_digits(n, k).len() == k,
    decreases k,
{
    if k > 0 {
        lemma_hex_len(n / 16, (k - 1) as nat);
    }
}

/// Two numbers with the same digits, of which there are enough, are the same.
pub proof fn lemma_hex_injective(n: nat, m: nat, k: nat)
    requires
        n < hex_bound(k),
        m < hex_bound(k),
        hex_digits(n, k) == hex_digits(m, k),
    ensures
        n == m,
    decreases k,
{
    if k > 0 {
        let a = hex_digits(n, k);
        let b = hex_digits(m, k);
        assert(a.last() == b.last());
        assert(a.drop_last() =~= hex_digits(n / 16, (k - 1) as nat));
        assert(b.drop_last() =~= hex_digits(m / 16, (k - 1) as nat));
        lemma_hex_injective(n / 16, m / 16, (k - 1) as nat);
    }
}

/// Appends the last `k` hexadecimal digits of `n`.
fn push_hex(s: &mut String, n: u64, k: u8)
    ensures
        final(s)@ == old(s)@ + hex_digits(n as nat, k as nat),
    decreases k,
{
    let ghost before = s@;
    if k > 0 {
        push_hex(s, n / 16, k - 1);
        let d: u8 = (n % 16) as u8;
        s.push(digit_of(d));
    }
    proof {
        assert(s@ =~= before + hex_digits(n as nat, k as nat));
    }
}

/// Appends `n` in hexadecimal, sixteen digits.
pub fn push_hex16(s: &mut String, n: u64)
    ensures
        final(s)@ == old(s)@ + hex16(n),
{
    push_hex(s, n, 16);
}

} // verus!
