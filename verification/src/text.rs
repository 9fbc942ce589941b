//! Text as sequences of characters: the few readings of command output and
//! settings that the engine needs, each with a definition of its own.

use vstd::prelude::*;

verus! {

/// `String::push` appends one character.
pub assume_specification[ String::push ](s: &mut String, c: char)
    ensures
        final(s)@ == old(s)@.push(c),
;

/// How `str`'s `Debug` writes a text: in double quotes, with escapes.
pub uninterp spec fn debug_text(s: Seq<char>) -> Seq<char>;

/// `format!("{:?}")` of a `str`: the result is a function of the text alone.
#[verifier::external_body]
pub(crate) fn quoted(s: &str) -> (r: String)
    ensures
        r@ == debug_text(s@),
{
    format!("{:?}", s)
}

/// A text with every character lowercased as `str::to_lowercase` does.
pub uninterp spec fn lowercase_text(s: Seq<char>) -> Seq<char>;

/// `str::to_lowercase`: the result is a function of the text alone.
#[verifier::external_body]
pub(crate) fn lowercase(s: &str) -> (r: String)
    ensures
        r@ == lowercase_text(s@),
{
    s.to_lowercase()
}

/// Bytes read as UTF-8, with whatever is not UTF-8 replaced.
pub uninterp spec fn lossy_text(bytes: Seq<u8>) -> Seq<char>;

/// `String::from_utf8_lossy`: the result is a function of the bytes alone.
#[verifier::external_body]
pub(crate) fn lossy(bytes: &Vec<u8>) -> (r: String)
    ensures
        r@ == lossy_text(bytes@),
{
    String::from_utf8_lossy(bytes).into_owned()
}

/// What a tool printed, as text.
pub fn decoded(bytes: &Vec<u8>) -> (r: String)
    ensures
        r@ == lossy_text(bytes.deep_view()),
{
    assert(bytes.deep_view() =~= bytes@);
    lossy(bytes)
}

/// An owned copy of a text.
pub fn of(s: &str) -> (r: String)
    ensures
        r@ == s@,
{
    s.to_owned()
}

/// The characters of a text.
pub fn chars(s: &str) -> (r: Vec<char>)
    ensures
        r@ == s@,
{
    let mut v: Vec<char> = Vec::new();
    for c in it: s.chars()
        invariant
            v@ == s@.take(it.index() as int),
            it.seq() == s@,
    {
        v.push(c);
    }
    v
}

/// The text between two character positions.
pub fn slice(v: &Vec<char>, from: usize, to: usize) -> (r: String)
    requires
        from <= to <= v.len(),
    ensures
        r@ == v@.subrange(from as int, to as int),
{
    let mut s: String = String::new();
    let mut i: usize = from;
    while i < to
        invariant
            from <= i <= to <= v.len(),
            s@ == v@.subrange(from as int, i as int),
        decreases to - i,
    {
        s.push(v[i]);
        i = i + 1;
    }
    s
}

/// Whether two texts are the same.
pub fn same(a: &str, b: &str) -> (r: bool)
    ensures
        r == (a@ == b@),
{
    let x: String = a.to_owned();
    let y: String = b.to_owned();
    x == y
}

/// Whether an optional text is present and the same as another.
pub fn same_as(a: &Option<String>, b: &str) -> (r: bool)
    ensures
        r == (a.deep_view() == Some(b@)),
{
    match a {
        Some(a) => same(a.as_str(), b),
        None => false,
    }
}

/// Whether two optional texts are the same.
pub fn same_option(a: &Option<String>, b: &Option<String>) -> (r: bool)
    ensures
        r == (a.deep_view() == b.deep_view()),
{
    match b {
        Some(b) => same_as(a, b.as_str()),
        None => a.is_none(),
    }
}

/// Whether a list holds a text.
pub fn has(list: &Vec<String>, s: &str) -> (r: bool)
    ensures
        r == list.deep_view().contains(s@),
{
    let mut i: usize = 0;
    while i < list.len()
        invariant
            i <= list.len(),
            forall|j: int| 0 <= j < i ==> list.deep_view()[j] != s@,
        decreases list.len() - i,
    {
        if same(list[i].as_str(), s) {
            assert(list.deep_view()[i as int] == s@);
            return true;
        }
        i = i + 1;
    }
    false
}

// ---------------------------------------------------------------------------
// Prefixes

/// The length of the longest prefix all of whose characters satisfy `p`.
pub open spec fn prefix_len(s: Seq<char>, p: spec_fn(char) -> bool) -> int
    decreases s.len(),
{
    if s.len() > 0 && p(s[0]) {
        1 + prefix_len(s.drop_first(), p)
    } else {
        0
    }
}

pub proof fn lemma_prefix_len(s: Seq<char>, p: spec_fn(char) -> bool, n: int)
    requires
        0 <= n <= s.len(),
        forall|i: int| 0 <= i < n ==> p(#[trigger] s[i]),
        n == s.len() || !p(s[n]),
    ensures
        prefix_len(s, p) == n,
    decreases n,
{
    if n > 0 {
        let t = s.drop_first();
        assert forall|i: int| 0 <= i < n - 1 implies p(#[trigger] t[i]) by {
            assert(t[i] == s[i + 1]);
        }
        lemma_prefix_len(t, p, n - 1);
    }
}

pub proof fn lemma_prefix_bounds(s: Seq<char>, p: spec_fn(char) -> bool)
    ensures
        0 <= prefix_len(s, p) <= s.len(),
        forall|i: int| 0 <= i < prefix_len(s, p) ==> p(#[trigger] s[i]),
        prefix_len(s, p) < s.len() ==> !p(s[prefix_len(s, p)]),
    decreases s.len(),
{
    if s.len() > 0 && p(s[0]) {
        let t = s.drop_first();
        lemma_prefix_bounds(t, p);
        assert forall|i: int| 0 <= i < prefix_len(s, p) implies p(#[trigger] s[i]) by {
            if i > 0 {
                assert(s[i] == t[i - 1]);
            }
        }
        assert(prefix_len(s, p) < s.len() ==> t[prefix_len(t, p)] == s[prefix_len(s, p)]);
    }
}

/// Whether `s` begins with `p`.
pub open spec fn begins(s: Seq<char>, p: Seq<char>) -> bool {
    s.len() >= p.len() && s.take(p.len() as int) == p
}

/// Whether `s` ends with `p`.
pub open spec fn ends(s: Seq<char>, p: Seq<char>) -> bool {
    s.len() >= p.len() && s.skip(s.len() - p.len()) == p
}

fn matches_at(v: &Vec<char>, at: usize, p: &Vec<char>) -> (r: bool)
    requires
        at <= v.len(),
    ensures
        r == begins(v@.skip(at as int), p@),
{
    if p.len() > v.len() - at {
        return false;
    }
    let mut i: usize = 0;
    while i < p.len()
        invariant
            i <= p.len() <= v.len() - at,
            at <= v.len(),
            v@.skip(at as int).take(i as int) == p@.take(i as int),
        decreases p.len() - i,
    {
        if v[at + i] != p[i] {
            assert(v@.skip(at as int).take(p@.len() as int)[i as int] != p@[i as int]);
            return false;
        }
        assert(v@.skip(at as int).take(i + 1) =~= v@.skip(at as int).take(i as int).push(
            v@[at + i],
        ));
        assert(p@.take(i + 1) =~= p@.take(i as int).push(p@[i as int]));
        i = i + 1;
    }
    assert(p@.take(p@.len() as int) =~= p@);
    true
}

/// `str::starts_with` a text.
pub fn starts_with(s: &str, p: &str) -> (r: bool)
    ensures
        r == begins(s@, p@),
{
    let v = chars(s);
    assert(v@.skip(0) =~= v@);
    matches_at(&v, 0, &chars(p))
}

/// What follows the prefix `p`, where `s` has it.
pub open spec fn without_prefix(s: Seq<char>, p: Seq<char>) -> Option<Seq<char>> {
    if begins(s, p) {
        Some(s.skip(p.len() as int))
    } else {
        None
    }
}

/// `str::strip_prefix`.
pub fn strip_prefix(s: &str, p: &str) -> (r: Option<String>)
    ensures
        r.deep_view() == without_prefix(s@, p@),
{
    let v = chars(s);
    let w = chars(p);
    assert(v@.skip(0) =~= v@);
    if matches_at(&v, 0, &w) {
        Some(slice(&v, w.len(), v.len()))
    } else {
        None
    }
}

/// What precedes the suffix `p`, where `s` has it.
pub open spec fn without_suffix(s: Seq<char>, p: Seq<char>) -> Option<Seq<char>> {
    if ends(s, p) {
        Some(s.take(s.len() - p.len()))
    } else {
        None
    }
}

/// `str::strip_suffix`.
pub fn strip_suffix(s: &str, p: &str) -> (r: Option<String>)
    ensures
        r.deep_view() == without_suffix(s@, p@),
{
    let v = chars(s);
    let w = chars(p);
    if w.len() > v.len() {
        return None;
    }
    let at: usize = v.len() - w.len();
    let found = matches_at(&v, at, &w);
    assert(v@.skip(at as int).take(w@.len() as int) =~= v@.skip(at as int));
    if found {
        Some(slice(&v, 0, at))
    } else {
        None
    }
}

// ---------------------------------------------------------------------------
// Searching

/// The position of the first occurrence of `p` in `s`.
pub open spec fn position(s: Seq<char>, p: Seq<char>) -> Option<int>
    decreases s.len(),
{
    if begins(s, p) {
        Some(0)
    } else if s.len() == 0 {
        None
    } else {
        match position(s.drop_first(), p) {
            Some(i) => Some(i + 1),
            None => None,
        }
    }
}

fn find_in(v: &Vec<char>, p: &Vec<char>) -> (r: Option<usize>)
    ensures
        match r {
            Some(i) => position(v@, p@) == Some(i as int) && i + p.len() <= v.len(),
            None => position(v@, p@) is None,
        },
{
    let mut i: usize = 0;
    assert(v@.skip(0) =~= v@);
    while i < v.len()
        invariant
            i <= v.len(),
            match position(v@.skip(i as int), p@) {
                Some(k) => position(v@, p@) == Some(k + i),
                None => position(v@, p@) is None,
            },
        decreases v.len() - i,
    {
        if matches_at(v, i, p) {
            return Some(i);
        }
        assert(v@.skip(i as int).drop_first() =~= v@.skip(i + 1));
        i = i + 1;
    }
    if matches_at(v, i, p) {
        Some(i)
    } else {
        None
    }
}

/// Whether `p` occurs in `s`.
pub open spec fn holds(s: Seq<char>, p: Seq<char>) -> bool {
    position(s, p) is Some
}

/// Where a text is found, it stands.
pub proof fn lemma_position(s: Seq<char>, p: Seq<char>)
    ensures
        position(s, p) matches Some(i) ==> 0 <= i && i + p.len() <= s.len() && s.subrange(
            i,
            i + p.len(),
        ) == p,
    decreases s.len(),
{
    if begins(s, p) {
        assert(s.subrange(0, p.len() as int) =~= s.take(p.len() as int));
    } else if s.len() > 0 {
        let t = s.drop_first();
        lemma_position(t, p);
        if let Some(i) = position(t, p) {
            assert(s.subrange(i + 1, i + 1 + p.len()) =~= t.subrange(i, i + p.len()));
        }
    }
}

/// Where a text stands, it is found.
pub proof fn lemma_holds(s: Seq<char>, p: Seq<char>, i: int)
    requires
        0 <= i <= s.len() - p.len(),
        s.subrange(i, i + p.len()) == p,
    ensures
        holds(s, p),
    decreases i,
{
    if i == 0 {
        assert(s.take(p.len() as int) =~= s.subrange(0, p.len() as int));
    } else if !begins(s, p) {
        let t = s.drop_first();
        assert(t.subrange(i - 1, i - 1 + p.len()) =~= s.subrange(i, i + p.len()));
        lemma_holds(t, p, i - 1);
    }
}

/// `str::contains` a text.
pub fn contains(s: &str, p: &str) -> (r: bool)
    ensures
        r == holds(s@, p@),
{
    find_in(&chars(s), &chars(p)).is_some()
}

/// What stands before and after the first occurrence of `p`.
pub open spec fn halves(s: Seq<char>, p: Seq<char>) -> Option<(Seq<char>, Seq<char>)> {
    match position(s, p) {
        Some(i) => Some((s.take(i), s.skip(i + p.len()))),
        None => None,
    }
}

/// `str::split_once`.
pub fn split_once(s: &str, p: &str) -> (r: Option<(String, String)>)
    ensures
        r.deep_view() == halves(s@, p@),
{
    let v = chars(s);
    let w = chars(p);
    match find_in(&v, &w) {
        Some(i) => {
            let end: usize = i + w.len();
            Some((slice(&v, 0, i), slice(&v, end, v.len())))
        },
        None => None,
    }
}

/// What stands before and after the last `c`.
pub open spec fn last_halves(s: Seq<char>, c: char) -> Option<(Seq<char>, Seq<char>)>
    decreases s.len(),
{
    if s.len() == 0 {
        None
    } else if s.last() == c {
        Some((s.drop_last(), Seq::<char>::empty()))
    } else {
        match last_halves(s.drop_last(), c) {
            Some((a, b)) => Some((a, b.push(s.last()))),
            None => None,
        }
    }
}

/// `str::rsplit_once` at a character.
pub fn rsplit_once(s: &str, c: char) -> (r: Option<(String, String)>)
    ensures
        r.deep_view() == last_halves(s@, c),
{
    let v = chars(s);
    let mut n: usize = v.len();
    assert(v@.take(n as int) =~= v@);
    assert(match last_halves(v@, c) {
        Some((a, b)) => Some((a, b + v@.skip(n as int))) == last_halves(v@, c),
        None => true,
    }) by {
        if let Some((a, b)) = last_halves(v@, c) {
            assert(b + v@.skip(n as int) =~= b);
        }
    }
    while n > 0
        invariant
            n <= v.len(),
            v@ == s@,
            match last_halves(v@.take(n as int), c) {
                Some((a, b)) => last_halves(v@, c) == Some((a, b + v@.skip(n as int))),
                None => last_halves(v@, c) is None,
            },
        decreases n,
    {
        let ghost t = v@.take(n as int);
        assert(t.drop_last() =~= v@.take(n - 1));
        if v[n - 1] == c {
            assert(Seq::<char>::empty() + v@.skip(n as int) =~= v@.skip(n as int));
            return Some((slice(&v, 0, n - 1), slice(&v, n, v.len())));
        }
        proof {
            if let Some((a, b)) = last_halves(t.drop_last(), c) {
                assert(b.push(v@[n - 1]) + v@.skip(n as int) =~= b + v@.skip(n - 1));
            }
        }
        n = n - 1;
    }
    None
}

/// The characters other than `c`.
pub open spec fn other_than(c: char) -> spec_fn(char) -> bool {
    |x: char| x != c
}

/// The pieces between the occurrences of `c`: always one more than there are of them.
pub open spec fn pieces(s: Seq<char>, c: char) -> Seq<Seq<char>>
    decreases s.len(),
{
    let n = prefix_len(s, other_than(c));
    if 0 <= n < s.len() {
        seq![s.take(n)] + pieces(s.skip(n + 1), c)
    } else {
        seq![s]
    }
}

/// `str::split` at a character.
pub fn split(s: &str, c: char) -> (r: Vec<String>)
    ensures
        r.deep_view() == pieces(s@, c),
{
    let v = chars(s);
    let mut out: Vec<String> = Vec::new();
    let mut at: usize = 0;
    let mut i: usize = 0;
    let ghost p = other_than(c);
    assert(v@.skip(0) =~= v@);
    assert(out.deep_view() + pieces(v@, c) =~= pieces(v@, c));
    while i < v.len()
        invariant
            at <= i <= v.len(),
            v@ == s@,
            p == other_than(c),
            forall|j: int| at <= j < i ==> v@[j] != c,
            pieces(v@, c) == out.deep_view() + pieces(v@.skip(at as int), c),
        decreases v.len() - i,
    {
        if v[i] == c {
            let ghost t = v@.skip(at as int);
            let ghost done = out.deep_view();
            proof {
                lemma_prefix_len(t, p, i - at);
                assert(t.take(i - at) =~= v@.subrange(at as int, i as int));
                assert(t.skip(i - at + 1) =~= v@.skip(i + 1));
            }
            let piece = slice(&v, at, i);
            out.push(piece);
            assert(out.deep_view() =~= done.push(piece@));
            assert(done + (seq![piece@] + pieces(v@.skip(i + 1), c)) =~= out.deep_view() + pieces(
                v@.skip(i + 1),
                c,
            ));
            at = i + 1;
        }
        i = i + 1;
    }
    let ghost t = v@.skip(at as int);
    let ghost done = out.deep_view();
    proof {
        lemma_prefix_len(t, p, t.len() as int);
        assert(t =~= v@.subrange(at as int, v@.len() as int));
    }
    let piece = slice(&v, at, v.len());
    out.push(piece);
    assert(out.deep_view() =~= done + seq![piece@]);
    out
}

// ---------------------------------------------------------------------------
// White space

/// Whether a character has Unicode's `White_Space` property.
pub open spec fn is_space(c: char) -> bool {
    let n = c as u32;
    ||| 0x09 <= n <= 0x0d
    ||| n == 0x20
    ||| n == 0x85
    ||| n == 0xa0
    ||| n == 0x1680
    ||| 0x2000 <= n <= 0x200a
    ||| n == 0x2028
    ||| n == 0x2029
    ||| n == 0x202f
    ||| n == 0x205f
    ||| n == 0x3000
}

/// `char::is_whitespace`.
pub fn space(c: char) -> (r: bool)
    ensures
        r == is_space(c),
{
    let n: u32 = c as u32;
    (0x09 <= n && n <= 0x0d) || n == 0x20 || n == 0x85 || n == 0xa0 || n == 0x1680 || (0x2000 <= n
        && n <= 0x200a) || n == 0x2028 || n == 0x2029 || n == 0x202f || n == 0x205f || n == 0x3000
}

/// `s` without the white space it begins with.
pub open spec fn trimmed_start(s: Seq<char>) -> Seq<char> {
    s.skip(prefix_len(s, |c: char| is_space(c)))
}

/// `s` without the white space it ends with.
pub open spec fn trimmed_end(s: Seq<char>) -> Seq<char>
    decreases s.len(),
{
    if s.len() > 0 && is_space(s.last()) {
        trimmed_end(s.drop_last())
    } else {
        s
    }
}

/// `s` without the white space around it.
pub open spec fn trimmed(s: Seq<char>) -> Seq<char> {
    trimmed_end(trimmed_start(s))
}

/// `str::trim`.
pub fn trim(s: &str) -> (r: String)
    ensures
        r@ == trimmed(s@),
{
    let v = chars(s);
    let ghost p = |c: char| is_space(c);
    let mut from: usize = 0;
    while from < v.len() && space(v[from])
        invariant
            from <= v.len(),
            forall|j: int| 0 <= j < from ==> is_space(v@[j]),
        decreases v.len() - from,
    {
        from = from + 1;
    }
    proof {
        lemma_prefix_len(v@, p, from as int);
    }
    let ghost t = v@.skip(from as int);
    let mut to: usize = v.len();
    assert(v@.subrange(from as int, to as int) =~= t);
    while to > from && space(v[to - 1])
        invariant
            from <= to <= v.len(),
            t == v@.skip(from as int),
            trimmed_end(t) == trimmed_end(v@.subrange(from as int, to as int)),
        decreases to,
    {
        let ghost u = v@.subrange(from as int, to as int);
        assert(u.last() == v@[to - 1]);
        assert(u.drop_last() =~= v@.subrange(from as int, to - 1));
        to = to - 1;
    }
    let ghost u = v@.subrange(from as int, to as int);
    assert(to > from ==> u.last() == v@[to - 1]);
    slice(&v, from, to)
}

/// The words of a text: the maximal runs of characters that are not white space.
pub open spec fn words(s: Seq<char>) -> Seq<Seq<char>>
    decreases s.len(),
{
    let t = trimmed_start(s);
    let n = prefix_len(t, |c: char| !is_space(c));
    if 0 < n <= t.len() <= s.len() {
        seq![t.take(n)] + words(t.skip(n))
    } else {
        Seq::empty()
    }
}

/// `str::split_whitespace`.
pub fn split_words(s: &str) -> (r: Vec<String>)
    ensures
        r.deep_view() == words(s@),
{
    let v = chars(s);
    let mut out: Vec<String> = Vec::new();
    let mut i: usize = 0;
    assert(v@.skip(0) =~= v@);
    assert(out.deep_view() + words(v@) =~= words(v@));
    while i < v.len()
        invariant
            i <= v.len(),
            words(v@) == out.deep_view() + words(v@.skip(i as int)),
        decreases v.len() - i,
    {
        let ghost rest = v@.skip(i as int);
        let ghost done = out.deep_view();
        let start: usize = i;
        while i < v.len() && space(v[i])
            invariant
                start <= i <= v.len(),
                forall|j: int| start <= j < i ==> is_space(v@[j]),
            decreases v.len() - i,
        {
            i = i + 1;
        }
        proof {
            lemma_prefix_len(rest, |c: char| is_space(c), i - start);
            assert(trimmed_start(rest) =~= v@.skip(i as int));
        }
        let from: usize = i;
        let ghost t = v@.skip(from as int);
        while i < v.len() && !space(v[i])
            invariant
                from <= i <= v.len(),
                forall|j: int| from <= j < i ==> !is_space(v@[j]),
            decreases v.len() - i,
        {
            i = i + 1;
        }
        proof {
            lemma_prefix_len(t, |c: char| !is_space(c), i - from);
        }
        if i > from {
            let word = slice(&v, from, i);
            out.push(word);
            assert(out.deep_view() =~= done.push(word@));
            assert(t.take(i - from) =~= word@);
            assert(t.skip(i - from) =~= v@.skip(i as int));
            assert(done + (seq![word@] + words(v@.skip(i as int))) =~= out.deep_view() + words(
                v@.skip(i as int),
            ));
        } else {
            assert(words(v@.skip(i as int)) =~= Seq::empty()) by {
                assert(v@.skip(i as int).len() == 0);
                lemma_prefix_bounds(v@.skip(i as int), |c: char| is_space(c));
            }
        }
    }
    assert(words(v@.skip(i as int)) =~= Seq::empty()) by {
        assert(v@.skip(i as int).len() == 0);
        lemma_prefix_bounds(v@.skip(i as int), |c: char| is_space(c));
    }
    assert(out.deep_view() + Seq::<Seq<char>>::empty() =~= out.deep_view());
    out
}

/// Whether any character is white space.
pub open spec fn has_space(s: Seq<char>) -> bool {
    exists|i: int| 0 <= i < s.len() && is_space(#[trigger] s[i])
}

pub fn any_space(s: &str) -> (r: bool)
    ensures
        r == has_space(s@),
{
    let v = chars(s);
    let mut i: usize = 0;
    while i < v.len()
        invariant
            i <= v.len(),
            v@ == s@,
            forall|j: int| 0 <= j < i ==> !is_space(#[trigger] v@[j]),
        decreases v.len() - i,
    {
        if space(v[i]) {
            return true;
        }
        i = i + 1;
    }
    false
}

/// The lines of a text. A line ends at a line feed, which is not part of it,
/// nor is a carriage return right before that line feed; an end after the last
/// line is optional.
pub open spec fn text_lines(s: Seq<char>) -> Seq<Seq<char>>
    decreases s.len(),
{
    let n = prefix_len(s, |c: char| c != '\n');
    if s.len() == 0 {
        Seq::empty()
    } else if 0 <= n < s.len() {
        seq![
            if n > 0 && s[n - 1] == '\r' {
                s.take(n - 1)
            } else {
                s.take(n)
            },
        ] + text_lines(s.skip(n + 1))
    } else {
        seq![s]
    }
}

/// `str::lines`.
pub fn lines(s: &str) -> (r: Vec<String>)
    ensures
        r.deep_view() == text_lines(s@),
{
    let v = chars(s);
    let mut out: Vec<String> = Vec::new();
    let mut at: usize = 0;
    let mut i: usize = 0;
    let ghost p = |x: char| x != '\n';
    assert(v@.skip(0) =~= v@);
    assert(out.deep_view() + text_lines(v@) =~= text_lines(v@));
    while i < v.len()
        invariant
            at <= i <= v.len(),
            p == (|x: char| x != '\n'),
            forall|j: int| at <= j < i ==> v@[j] != '\n',
            text_lines(v@) == out.deep_view() + text_lines(v@.skip(at as int)),
        decreases v.len() - i,
    {
        if v[i] == '\n' {
            let ghost t = v@.skip(at as int);
            let ghost done = out.deep_view();
            proof {
                lemma_prefix_len(t, p, i - at);
                assert(t.skip(i - at + 1) =~= v@.skip(i + 1));
            }
            let end: usize = if i > at && v[i - 1] == '\r' {
                i - 1
            } else {
                i
            };
            let line = slice(&v, at, end);
            out.push(line);
            assert(out.deep_view() =~= done.push(line@));
            assert(t.take(end - at) =~= line@);
            assert(done + (seq![line@] + text_lines(v@.skip(i + 1))) =~= out.deep_view()
                + text_lines(v@.skip(i + 1)));
            at = i + 1;
        }
        i = i + 1;
    }
    let ghost t = v@.skip(at as int);
    let ghost done = out.deep_view();
    if at < v.len() {
        proof {
            lemma_prefix_len(t, p, t.len() as int);
        }
        let line = slice(&v, at, v.len());
        out.push(line);
        assert(line@ =~= t);
        assert(out.deep_view() =~= done + seq![t]);
    } else {
        assert(done + Seq::<Seq<char>>::empty() =~= done);
    }
    out
}

// ---------------------------------------------------------------------------
// Rewriting

/// `s` with every `from` made a `to`.
pub open spec fn replaced(s: Seq<char>, from: char, to: char) -> Seq<char> {
    Seq::new(
        s.len(),
        |i: int|
            if s[i] == from {
                to
            } else {
                s[i]
            },
    )
}

/// `str::replace` of one character by another.
pub fn replace(s: &str, from: char, to: char) -> (r: String)
    ensures
        r@ == replaced(s@, from, to),
{
    let v = chars(s);
    let mut out: String = String::new();
    let mut i: usize = 0;
    while i < v.len()
        invariant
            i <= v.len(),
            out@ == replaced(v@, from, to).take(i as int),
        decreases v.len() - i,
    {
        out.push(
            if v[i] == from {
                to
            } else {
                v[i]
            },
        );
        assert(replaced(v@, from, to).take(i + 1) =~= replaced(v@, from, to).take(i as int).push(
            replaced(v@, from, to)[i as int],
        ));
        i = i + 1;
    }
    assert(replaced(v@, from, to).take(i as int) =~= replaced(v@, from, to));
    out
}

/// Texts one after another, with a separator between each two.
pub open spec fn joined(parts: Seq<Seq<char>>, separator: Seq<char>) -> Seq<char>
    decreases parts.len(),
{
    if parts.len() == 0 {
        Seq::empty()
    } else if parts.len() == 1 {
        parts[0]
    } else {
        joined(parts.drop_last(), separator) + separator + parts.last()
    }
}

/// `[String]::join`.
pub fn join(parts: &Vec<String>, separator: &str) -> (r: String)
    ensures
        r@ == joined(parts.deep_view(), separator@),
{
    let mut out: String = String::new();
    let mut i: usize = 0;
    let ghost all = parts.deep_view();
    assert(all.take(0) =~= Seq::empty());
    while i < parts.len()
        invariant
            i <= parts.len(),
            all == parts.deep_view(),
            out@ == joined(all.take(i as int), separator@),
        decreases parts.len() - i,
    {
        let ghost next = all.take(i + 1);
        assert(next.drop_last() =~= all.take(i as int));
        if i > 0 {
            out.append(separator);
            out.append(parts[i].as_str());
        } else {
            out.append(parts[i].as_str());
            assert(out@ =~= next[0]);
        }
        i = i + 1;
    }
    assert(all.take(i as int) =~= all);
    out
}

// ---------------------------------------------------------------------------
// Numbers

pub open spec fn digit(n: nat) -> char {
    (('0' as u32) + n) as char
}

/// A natural number in decimal.
pub open spec fn decimal(n: nat) -> Seq<char>
    decreases n,
{
    if n < 10 {
        seq![digit(n)]
    } else {
        decimal(n / 10).push(digit(n % 10))
    }
}

/// A number is written in digits.
pub proof fn lemma_decimal(n: nat)
    ensures
        all_digits(decimal(n)),
    decreases n,
{
    if n >= 10 {
        lemma_decimal(n / 10);
    }
}

/// The digits of a number write that number.
pub proof fn lemma_decimal_value(n: nat)
    ensures
        digits_value(decimal(n)) == n,
    decreases n,
{
    let s = decimal(n);
    if n >= 10 {
        lemma_decimal_value(n / 10);
        assert(s.drop_last() =~= decimal(n / 10));
    } else {
        assert(s.drop_last() =~= Seq::empty());
        assert(digits_value(s.drop_last()) == 0);
    }
}

fn digit_char(n: u64) -> (c: char)
    requires
        n < 10,
    ensures
        c == digit(n as nat),
{
    if n == 0 {
        '0'
    } else if n == 1 {
        '1'
    } else if n == 2 {
        '2'
    } else if n == 3 {
        '3'
    } else if n == 4 {
        '4'
    } else if n == 5 {
        '5'
    } else if n == 6 {
        '6'
    } else if n == 7 {
        '7'
    } else if n == 8 {
        '8'
    } else {
        '9'
    }
}

/// An unsigned number as `Display` writes it.
pub fn number(n: u64) -> (r: String)
    ensures
        r@ == decimal(n as nat),
    decreases n,
{
    if n < 10 {
        let mut s: String = String::new();
        s.push(digit_char(n));
        assert(s@ =~= seq![digit(n as nat)]);
        s
    } else {
        let mut s = number(n / 10);
        s.push(digit_char(n % 10));
        s
    }
}

/// An integer in decimal, with a minus sign where it is negative.
pub open spec fn signed_decimal(n: int) -> Seq<char> {
    if n < 0 {
        seq!['-'] + decimal((-n) as nat)
    } else {
        decimal(n as nat)
    }
}

/// A signed number as `Display` writes it.
pub fn signed(n: i64) -> (r: String)
    ensures
        r@ == signed_decimal(n as int),
{
    if n < 0 {
        let magnitude: u64 = (-(n + 1)) as u64 + 1;
        let mut s: String = String::new();
        s.push('-');
        s.append(number(magnitude).as_str());
        assert(s@ =~= seq!['-'] + decimal((-n) as nat));
        s
    } else {
        number(n as u64)
    }
}

pub open spec fn is_digit(c: char) -> bool {
    '0' <= c <= '9'
}

pub open spec fn all_digits(s: Seq<char>) -> bool {
    forall|i: int| 0 <= i < s.len() ==> is_digit(#[trigger] s[i])
}

/// The number that decimal digits write.
pub open spec fn digits_value(s: Seq<char>) -> nat
    decreases s.len(),
{
    if s.len() == 0 {
        0
    } else {
        digits_value(s.drop_last()) * 10 + (s.last() as nat - '0' as nat) as nat
    }
}

/// What `str::parse` gives for an unsigned type whose largest value is `max`:
/// one or more decimal digits, with a plus sign before them or not, that write
/// a number no larger.
pub open spec fn parsed_unsigned(s: Seq<char>, max: nat) -> Option<nat> {
    let d = if s.len() > 1 && s[0] == '+' {
        s.skip(1)
    } else {
        s
    };
    if d.len() > 0 && all_digits(d) && digits_value(d) <= max {
        Some(digits_value(d))
    } else {
        None
    }
}

proof fn lemma_digits_grow(s: Seq<char>, n: int)
    requires
        0 <= n <= s.len(),
    ensures
        digits_value(s.take(n)) <= digits_value(s),
    decreases s.len() - n,
{
    if n < s.len() {
        lemma_digits_grow(s, n + 1);
        assert(s.take(n + 1).drop_last() =~= s.take(n));
    } else {
        assert(s.take(n) =~= s);
    }
}

/// `str::parse` for an unsigned type whose largest value is `max`.
pub fn parse_unsigned(s: &str, max: u64) -> (r: Option<u64>)
    ensures
        match r {
            Some(n) => parsed_unsigned(s@, max as nat) == Some(n as nat),
            None => parsed_unsigned(s@, max as nat) is None,
        },
{
    let v = chars(s);
    let from: usize = if v.len() > 1 && v[0] == '+' {
        1
    } else {
        0
    };
    let ghost d = v@.skip(from as int);
    assert(from == 0 ==> d =~= v@);
    if v.len() == from {
        return None;
    }
    let mut n: u64 = 0;
    let mut i: usize = from;
    assert(d.take(0) =~= Seq::empty());
    while i < v.len()
        invariant
            from <= i <= v.len(),
            v@ == s@,
            from == (if s@.len() > 1 && s@[0] == '+' {
                1int
            } else {
                0
            }),
            d == v@.skip(from as int),
            from == 0 ==> d == v@,
            n <= max,
            n == digits_value(d.take(i - from)),
            forall|j: int| 0 <= j < i - from ==> is_digit(#[trigger] d[j]),
        decreases v.len() - i,
    {
        let c = v[i];
        assert(c == d[i - from]);
        if c < '0' || c > '9' {
            return None;
        }
        let value: u64 = c as u64 - '0' as u64;
        assert(d.take(i + 1 - from).drop_last() =~= d.take(i - from));
        assert(d.take(i + 1 - from).last() == c);
        let wide: u128 = n as u128 * 10 + value as u128;
        if wide > max as u128 {
            proof {
                lemma_digits_grow(d, i + 1 - from);
            }
            return None;
        }
        n = wide as u64;
        i = i + 1;
    }
    assert(d.take(i - from) =~= d);
    Some(n)
}

// ---------------------------------------------------------------------------
// Order

/// Whether `a` comes before `b`: character by character, a proper prefix first.
pub open spec fn before(a: Seq<char>, b: Seq<char>) -> bool
    decreases a.len(),
{
    if a.len() == 0 || b.len() == 0 {
        b.len() > 0
    } else if a[0] != b[0] {
        a[0] < b[0]
    } else {
        before(a.drop_first(), b.drop_first())
    }
}

/// `a < b` for texts.
pub fn comes_before(a: &str, b: &str) -> (r: bool)
    ensures
        r == before(a@, b@),
{
    let v = chars(a);
    let w = chars(b);
    let mut i: usize = 0;
    assert(v@.skip(0) =~= v@);
    assert(w@.skip(0) =~= w@);
    while i < v.len() && i < w.len()
        invariant
            i <= v.len(),
            i <= w.len(),
            v@ == a@,
            w@ == b@,
            before(v@, w@) == before(v@.skip(i as int), w@.skip(i as int)),
        decreases v.len() - i,
    {
        if v[i] != w[i] {
            return v[i] < w[i];
        }
        assert(v@.skip(i as int).drop_first() =~= v@.skip(i + 1));
        assert(w@.skip(i as int).drop_first() =~= w@.skip(i + 1));
        i = i + 1;
    }
    i < w.len()
}

// ---------------------------------------------------------------------------
// Laws

/// A number is read back as it was written, wherever it fits.
pub proof fn numbers_are_read_back(n: nat, max: nat)
    ensures
        parsed_unsigned(decimal(n), max) == (if n <= max {
            Some(n)
        } else {
            None
        }),
{
    lemma_decimal(n);
    lemma_decimal_value(n);
    assert(is_digit(decimal(n)[0]));
}

/// What stands before and after a text makes up the whole with it between, and
/// it stands nowhere earlier.
pub proof fn halves_make_the_whole(s: Seq<char>, p: Seq<char>)
    ensures
        match halves(s, p) {
            Some((a, b)) => s == a + p + b && forall|i: int|
                0 <= i < a.len() ==> s.skip(i).take(p.len() as int) != p || i + p.len() > s.len(),
            None => forall|i: int| 0 <= i <= s.len() - p.len() ==> #[trigger] s.subrange(
                i,
                i + p.len(),
            ) != p,
        },
    decreases s.len(),
{
    lemma_position(s, p);
    match position(s, p) {
        Some(at) => {
            assert(s =~= s.take(at) + s.subrange(at, at + p.len()) + s.skip(at + p.len()));
            assert forall|i: int| 0 <= i < at implies s.skip(i).take(p.len() as int) != p || i
                + p.len() > s.len() by {
                lemma_nowhere_before(s, p, i);
            }
        },
        None => {
            assert forall|i: int| 0 <= i <= s.len() - p.len() implies #[trigger] s.subrange(
                i,
                i + p.len(),
            ) != p by {
                if s.subrange(i, i + p.len()) == p {
                    lemma_holds(s, p, i);
                }
            }
        },
    }
}

proof fn lemma_nowhere_before(s: Seq<char>, p: Seq<char>, i: int)
    requires
        position(s, p) matches Some(at) && 0 <= i < at,
    ensures
        s.skip(i).take(p.len() as int) != p || i + p.len() > s.len(),
    decreases s.len(),
{
    lemma_position(s, p);
    if i == 0 {
        assert(s.skip(0) =~= s);
    } else {
        lemma_nowhere_before(s.drop_first(), p, i - 1);
        assert(s.drop_first().skip(i - 1) =~= s.skip(i));
    }
}

/// What stands before and after the last of a character makes up the whole with
/// it between, and it is the last.
pub proof fn last_halves_make_the_whole(a: Seq<char>, b: Seq<char>, c: char)
    requires
        !b.contains(c),
    ensures
        last_halves(a.push(c) + b, c) == Some((a, b)),
    decreases b.len(),
{
    let s = a.push(c) + b;
    if b.len() == 0 {
        assert(s =~= a.push(c));
        assert(s.drop_last() =~= a);
        assert(b =~= Seq::empty());
    } else {
        assert(b[b.len() - 1] == b.last());
        assert(s.last() == b.last());
        assert forall|x: char| b.drop_last().contains(x) implies b.contains(x) by {
            let i = choose|i: int| 0 <= i < b.drop_last().len() && b.drop_last()[i] == x;
            assert(b[i] == x);
        }
        last_halves_make_the_whole(a, b.drop_last(), c);
        assert(s.drop_last() =~= a.push(c) + b.drop_last());
        assert(b =~= b.drop_last().push(b.last()));
    }
}

pub proof fn lemma_last_halves(s: Seq<char>, c: char)
    ensures
        last_halves(s, c) matches Some((a, b)) ==> s == a.push(c) + b && !b.contains(c),
    decreases s.len(),
{
    if s.len() > 0 {
        assert(s =~= s.drop_last().push(s.last()));
        if s.last() == c {
            assert(s =~= s.drop_last().push(c) + Seq::<char>::empty());
        } else {
            lemma_last_halves(s.drop_last(), c);
            if let Some((a, b)) = last_halves(s.drop_last(), c) {
                let t = b.push(s.last());
                assert(s =~= a.push(c) + t);
                if t.contains(c) {
                    let i = choose|i: int| 0 <= i < t.len() && t[i] == c;
                    assert(b[i] == c);
                }
            }
        }
    }
}

/// A text is cut at a character where the character is, and nowhere else: the
/// first piece ends at the first of them, and what follows is cut in turn.
pub proof fn pieces_end_where_they_are_cut(piece: Seq<char>, c: char, rest: Seq<char>)
    requires
        !piece.contains(c),
    ensures
        pieces(piece, c) == seq![piece],
        pieces(piece.push(c) + rest, c) == seq![piece] + pieces(rest, c),
{
    let s = piece.push(c) + rest;
    let p = other_than(c);
    assert forall|i: int| 0 <= i < piece.len() implies p(#[trigger] s[i]) by {
        assert(s[i] == piece[i]);
        assert(piece.contains(piece[i]));
    }
    assert(s[piece.len() as int] == c);
    lemma_prefix_len(s, p, piece.len() as int);
    assert(s.take(piece.len() as int) =~= piece);
    assert(s.skip(piece.len() as int + 1) =~= rest);
    assert forall|i: int| 0 <= i < piece.len() implies p(#[trigger] piece[i]) by {
        assert(piece.contains(piece[i]));
    }
    lemma_prefix_len(piece, p, piece.len() as int);
}

/// The words of a text are what stands between its spaces: a word ends at the
/// first space after it, and spaces before a word make no difference.
pub proof fn words_end_where_spaces_are(word: Seq<char>, space: char, rest: Seq<char>)
    requires
        word.len() > 0,
        !has_space(word),
        is_space(space),
    ensures
        words(word) == seq![word],
        words(word.push(space) + rest) == seq![word] + words(rest),
        words(seq![space] + word) == seq![word],
{
    let solid = |c: char| !is_space(c);
    let blank = |c: char| is_space(c);
    let s = word.push(space) + rest;
    let n = word.len() as int;
    assert(!is_space(word[0]));
    assert(s[0] == word[0]);
    assert forall|i: int| 0 <= i < n implies solid(#[trigger] s[i]) by {
        assert(s[i] == word[i]);
    }
    assert(s[n] == space);
    lemma_prefix_len(s, blank, 0);
    assert(s.skip(0) =~= s);
    lemma_prefix_len(s, solid, n);
    assert(s.take(n) =~= word);
    let after = s.skip(n);
    assert(after =~= seq![space] + rest);
    lemma_words_skip(space, rest);
    assert(words(s) == seq![word] + words(after));
    lemma_prefix_len(word, blank, 0);
    assert(word.skip(0) =~= word);
    assert forall|i: int| 0 <= i < n implies solid(#[trigger] word[i]) by {}
    lemma_prefix_len(word, solid, n);
    assert(word.take(n) =~= word);
    assert(word.skip(n) =~= Seq::<char>::empty());
    lemma_no_words();
    assert(words(word) =~= seq![word]);
    lemma_words_skip(space, word);
}

proof fn lemma_no_words()
    ensures
        words(Seq::empty()) == Seq::<Seq<char>>::empty(),
{
    let none = Seq::<char>::empty();
    lemma_prefix_len(none, |c: char| is_space(c), 0);
    assert(none.skip(0) =~= none);
    lemma_prefix_len(none, |c: char| !is_space(c), 0);
}

proof fn lemma_words_skip(space: char, rest: Seq<char>)
    requires
        is_space(space),
    ensures
        words(seq![space] + rest) == words(rest),
{
    let blank = |c: char| is_space(c);
    let s = seq![space] + rest;
    assert(s.drop_first() =~= rest);
    lemma_prefix_bounds(rest, blank);
    let k = prefix_len(rest, blank);
    assert(prefix_len(s, blank) == 1 + k);
    assert(s.skip(1 + k) =~= rest.skip(k));
    let t = rest.skip(k);
    lemma_prefix_bounds(t, |c: char| !is_space(c));
}

/// A line ends at the first line break, and a carriage return before it is part
/// of the break.
pub proof fn lines_end_at_the_break(line: Seq<char>, rest: Seq<char>)
    requires
        !line.contains('\n'),
    ensures
        line.len() > 0 ==> text_lines(line) == seq![line],
        line.len() == 0 || line.last() != '\r' ==> text_lines(line.push('\n') + rest)
            == seq![line] + text_lines(rest),
        text_lines(line.push('\r').push('\n') + rest) == seq![line] + text_lines(rest),
{
    let p = |c: char| c != '\n';
    assert forall|i: int| 0 <= i < line.len() implies p(#[trigger] line[i]) by {
        assert(line.contains(line[i]));
    }
    lemma_prefix_len(line, p, line.len() as int);
    let s = line.push('\n') + rest;
    let n = line.len() as int;
    assert forall|i: int| 0 <= i < n implies p(#[trigger] s[i]) by {
        assert(s[i] == line[i]);
    }
    assert(s[n] == '\n');
    lemma_prefix_len(s, p, n);
    assert(s.take(n) =~= line);
    assert(s.skip(n + 1) =~= rest);
    if n > 0 {
        assert(s[n - 1] == line.last());
    }
    let t = line.push('\r').push('\n') + rest;
    assert forall|i: int| 0 <= i < n + 1 implies p(#[trigger] t[i]) by {
        if i < n {
            assert(t[i] == line[i]);
        } else {
            assert(t[i] == '\r');
        }
    }
    assert(t[n + 1] == '\n');
    lemma_prefix_len(t, p, n + 1);
    assert(t[n] == '\r');
    assert(t.take(n) =~= line);
    assert(t.skip(n + 2) =~= rest);
}

/// Trimming takes away what is space at both ends, and nothing else.
pub proof fn trimming_takes_only_space(a: Seq<char>, core: Seq<char>, b: Seq<char>)
    requires
        forall|i: int| 0 <= i < a.len() ==> is_space(#[trigger] a[i]),
        forall|i: int| 0 <= i < b.len() ==> is_space(#[trigger] b[i]),
        core.len() > 0,
        !is_space(core[0]),
        !is_space(core.last()),
    ensures
        trimmed(a + core + b) == core,
        trimmed(a) == Seq::<char>::empty(),
{
    let blank = |c: char| is_space(c);
    let s = a + core + b;
    let n = a.len() as int;
    assert forall|i: int| 0 <= i < n implies blank(#[trigger] s[i]) by {
        assert(s[i] == a[i]);
    }
    assert(s[n] == core[0]);
    lemma_prefix_len(s, blank, n);
    assert(s.skip(n) =~= core + b);
    lemma_trimmed_end(core, b);
    assert forall|i: int| 0 <= i < n implies blank(#[trigger] a[i]) by {}
    lemma_prefix_len(a, blank, n);
    assert(a.skip(n) =~= Seq::<char>::empty());
}

proof fn lemma_trimmed_end(core: Seq<char>, b: Seq<char>)
    requires
        forall|i: int| 0 <= i < b.len() ==> is_space(#[trigger] b[i]),
        core.len() > 0,
        !is_space(core.last()),
    ensures
        trimmed_end(core + b) == core,
    decreases b.len(),
{
    let s = core + b;
    if b.len() == 0 {
        assert(s =~= core);
    } else {
        assert(s.last() == b[b.len() - 1]);
        assert(s.drop_last() =~= core + b.drop_last());
        lemma_trimmed_end(core, b.drop_last());
    }
}

/// Replacing a character leaves every other where it was, and none of those
/// that are replaced.
pub proof fn replacing_leaves_the_others(s: Seq<char>, from: char, to: char, i: int)
    requires
        0 <= i < s.len(),
    ensures
        replaced(s, from, to).len() == s.len(),
        s[i] == from ==> replaced(s, from, to)[i] == to,
        s[i] != from ==> replaced(s, from, to)[i] == s[i],
{
}

/// Lists that are joined by a character are cut into the same list by it, where
/// no item has it.
pub proof fn what_was_joined_is_cut_again(parts: Seq<Seq<char>>, c: char)
    requires
        parts.len() > 0,
        forall|i: int| 0 <= i < parts.len() ==> !(#[trigger] parts[i]).contains(c),
    ensures
        pieces(joined(parts, seq![c]), c) == parts,
    decreases parts.len(),
{
    if parts.len() == 1 {
        pieces_end_where_they_are_cut(parts[0], c, Seq::empty());
        assert(parts =~= seq![parts[0]]);
    } else {
        let front = parts.drop_last();
        assert forall|i: int| 0 <= i < front.len() implies !(#[trigger] front[i]).contains(c) by {
            assert(front[i] == parts[i]);
        }
        what_was_joined_is_cut_again(front, c);
        assert(parts.last() == parts[parts.len() - 1]);
        lemma_pieces_push(joined(front, seq![c]), c, parts.last());
        assert(joined(parts, seq![c]) =~= joined(front, seq![c]).push(c) + parts.last());
        assert(parts =~= front.push(parts.last()));
    }
}

proof fn lemma_pieces_push(s: Seq<char>, c: char, last: Seq<char>)
    requires
        !last.contains(c),
    ensures
        pieces(s.push(c) + last, c) == pieces(s, c).push(last),
    decreases s.len(),
{
    let p = other_than(c);
    lemma_prefix_bounds(s, p);
    let n = prefix_len(s, p);
    let head = s.take(n);
    assert(!head.contains(c)) by {
        if head.contains(c) {
            let i = choose|i: int| 0 <= i < head.len() && head[i] == c;
            assert(p(s[i]));
        }
    }
    if n < s.len() {
        let rest = s.skip(n + 1);
        lemma_pieces_push(rest, c, last);
        assert(s =~= head.push(c) + rest);
        assert(s.push(c) + last =~= head.push(c) + (rest.push(c) + last));
        pieces_end_where_they_are_cut(head, c, rest);
        pieces_end_where_they_are_cut(head, c, rest.push(c) + last);
        assert(pieces(s.push(c) + last, c) =~= pieces(s, c).push(last));
    } else {
        assert(head =~= s);
        pieces_end_where_they_are_cut(s, c, last);
        pieces_end_where_they_are_cut(last, c, Seq::empty());
        assert(pieces(s.push(c) + last, c) =~= pieces(s, c).push(last));
    }
}

} // verus!
