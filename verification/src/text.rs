//! Text primitives. Every function is stated over the sequence of characters a string
//! holds, so that the rules built on top of them (prefix gates, fences, line readers)
//! can be stated the same way.

use vstd::prelude::*;

verus! {

/// `String::push` appends one character.
pub assume_specification[ String::push ](s: &mut String, c: char)
    ensures
        final(s)@ == old(s)@.push(c),
;

// ── Copies ──────────────────────────────────────────────────────────────────────────────

/// The characters of `s`, in order.
pub fn chars_of(s: &str) -> (r: Vec<char>)
    ensures
        r@ == s@,
{
    let mut out: Vec<char> = Vec::new();
    for c in it: s.chars()
        invariant
            out@ == s@.take(it.index()),
            it.seq() == s@,
    {
        out.push(c);
    }
    out
}

/// The string that holds `v[from..to]`.
pub fn string_of(v: &Vec<char>, from: usize, to: usize) -> (r: String)
    requires
        from <= to <= v@.len(),
    ensures
        r@ == v@.subrange(from as int, to as int),
{
    let mut out = String::new();
    let mut i: usize = from;
    while i < to
        invariant
            from <= i <= to <= v@.len(),
            out@ == v@.subrange(from as int, i as int),
        decreases to - i,
    {
        out.push(v[i]);
        assert(v@.subrange(from as int, i as int).push(v@[i as int]) =~= v@.subrange(
            from as int,
            i + 1,
        ));
        i += 1;
    }
    out
}

/// An owned copy of `s`.
pub fn owned(s: &str) -> (r: String)
    ensures
        r@ == s@,
{
    let mut out = String::new();
    out.append(s);
    assert(Seq::<char>::empty() + s@ =~= s@);
    out
}

/// An owned copy of an optional text.
pub fn owned_opt(s: &Option<String>) -> (r: Option<String>)
    ensures
        r.deep_view() == s.deep_view(),
{
    match s {
        Some(t) => Some(t.clone()),
        None => None,
    }
}

/// An element-wise copy of `v`.
pub fn owned_all(v: &Vec<String>) -> (r: Vec<String>)
    ensures
        r.deep_view() == v.deep_view(),
        r@.len() == v@.len(),
{
    let mut out: Vec<String> = Vec::new();
    let mut i: usize = 0;
    while i < v.len()
        invariant
            i <= v@.len(),
            out@.len() == i,
            forall|j: int| 0 <= j < i ==> (#[trigger] out@[j])@ == v@[j]@,
        decreases v@.len() - i,
    {
        out.push(v[i].clone());
        i += 1;
    }
    assert(out.deep_view() =~= v.deep_view());
    out
}

// ── Comparison ──────────────────────────────────────────────────────────────────────────

/// Whether two character vectors are equal.
fn same_chars(x: &Vec<char>, y: &Vec<char>) -> (r: bool)
    ensures
        r == (x@ == y@),
{
    if x.len() != y.len() {
        return false;
    }
    let mut i: usize = 0;
    while i < x.len()
        invariant
            i <= x@.len(),
            x@.len() == y@.len(),
            forall|j: int| 0 <= j < i ==> x@[j] == y@[j],
        decreases x@.len() - i,
    {
        if x[i] != y[i] {
            assert(x@[i as int] != y@[i as int]);
            return false;
        }
        i += 1;
    }
    assert(x@ =~= y@);
    true
}

/// Whether `a` and `b` hold the same characters.
pub fn same_text(a: &str, b: &str) -> (r: bool)
    ensures
        r == (a@ == b@),
{
    let x = chars_of(a);
    let y = chars_of(b);
    same_chars(&x, &y)
}

/// Whether some element of `v` holds the characters of `s`.
pub fn any_same(v: &Vec<String>, s: &str) -> (r: bool)
    ensures
        r == v.deep_view().contains(s@),
{
    let mut i: usize = 0;
    while i < v.len()
        invariant
            i <= v@.len(),
            forall|j: int| 0 <= j < i ==> (#[trigger] v@[j])@ != s@,
        decreases v@.len() - i,
    {
        if same_text(v[i].as_str(), s) {
            assert(v.deep_view()[i as int] == s@);
            return true;
        }
        i += 1;
    }
    assert forall|j: int| 0 <= j < v.deep_view().len() implies v.deep_view()[j] != s@ by {
        assert(v.deep_view()[j] == v@[j]@);
    }
    false
}

/// `a` comes before `b` in the order of strings: character by character, a proper prefix
/// first.
pub open spec fn text_lt(a: Seq<char>, b: Seq<char>) -> bool
    decreases a.len(),
{
    if b.len() == 0 {
        false
    } else if a.len() == 0 {
        true
    } else if a[0] == b[0] {
        text_lt(a.skip(1), b.skip(1))
    } else {
        a[0] < b[0]
    }
}

/// Whether `a` comes before `b` in the order of strings.
pub fn text_before(a: &str, b: &str) -> (r: bool)
    ensures
        r == text_lt(a@, b@),
{
    let x = chars_of(a);
    let y = chars_of(b);
    let mut i: usize = 0;
    assert(x@.skip(0) =~= x@);
    assert(y@.skip(0) =~= y@);
    while i < x.len() && i < y.len() && x[i] == y[i]
        invariant
            i <= x@.len(),
            i <= y@.len(),
            text_lt(x@, y@) == text_lt(x@.skip(i as int), y@.skip(i as int)),
        decreases x@.len() - i,
    {
        assert(x@.skip(i as int).skip(1) =~= x@.skip(i + 1));
        assert(y@.skip(i as int).skip(1) =~= y@.skip(i + 1));
        i += 1;
    }
    if i >= y.len() {
        false
    } else if i >= x.len() {
        true
    } else {
        x[i] < y[i]
    }
}

/// The order of strings is irreflexive.
pub proof fn text_lt_irreflexive(a: Seq<char>)
    ensures
        !text_lt(a, a),
    decreases a.len(),
{
    if a.len() > 0 {
        text_lt_irreflexive(a.skip(1));
    }
}

/// The order of strings is transitive.
pub proof fn text_lt_transitive(a: Seq<char>, b: Seq<char>, c: Seq<char>)
    requires
        text_lt(a, b),
        text_lt(b, c),
    ensures
        text_lt(a, c),
    decreases a.len(),
{
    if a.len() > 0 && a[0] == b[0] && b[0] == c[0] {
        text_lt_transitive(a.skip(1), b.skip(1), c.skip(1));
    }
}

/// Two different strings are ordered one way or the other.
pub proof fn text_lt_total(a: Seq<char>, b: Seq<char>)
    ensures
        a == b || text_lt(a, b) || text_lt(b, a),
    decreases a.len(),
{
    if a.len() > 0 && b.len() > 0 && a[0] == b[0] {
        text_lt_total(a.skip(1), b.skip(1));
        if a.skip(1) == b.skip(1) {
            assert(a =~= seq![a[0]] + a.skip(1));
            assert(b =~= seq![b[0]] + b.skip(1));
        }
    } else if a.len() == 0 && b.len() == 0 {
        assert(a =~= b);
    }
}

// ── Search ──────────────────────────────────────────────────────────────────────────────

/// `p` stands at position `i` of `s`.
pub open spec fn occurs_at(s: Seq<char>, p: Seq<char>, i: int) -> bool {
    0 <= i && i + p.len() <= s.len() && s.subrange(i, i + p.len()) == p
}

/// `s` begins with `p`.
pub open spec fn has_prefix(s: Seq<char>, p: Seq<char>) -> bool {
    occurs_at(s, p, 0)
}

/// `p` stands somewhere in `s`.
pub open spec fn has_part(s: Seq<char>, p: Seq<char>) -> bool {
    exists|i: int| occurs_at(s, p, i)
}

/// `i` is the first position of `p` in `s`.
pub open spec fn first_at(s: Seq<char>, p: Seq<char>, i: int) -> bool {
    occurs_at(s, p, i) && forall|j: int| 0 <= j < i ==> !occurs_at(s, p, j)
}

/// Whether `p` stands at position `i` of `s`.
pub fn occurs(s: &Vec<char>, p: &Vec<char>, i: usize) -> (r: bool)
    ensures
        r == occurs_at(s@, p@, i as int),
{
    if p.len() > s.len() || i > s.len() - p.len() {
        return false;
    }
    let n: usize = s.len();
    let mut k: usize = 0;
    while k < p.len()
        invariant
            k <= p@.len(),
            n == s@.len(),
            i + p@.len() <= n,
            forall|j: int| 0 <= j < k ==> s@[i + j] == p@[j],
        decreases p@.len() - k,
    {
        if s[i + k] != p[k] {
            assert(s@.subrange(i as int, i + p@.len())[k as int] != p@[k as int]);
            return false;
        }
        k += 1;
    }
    assert(s@.subrange(i as int, i + p@.len()) =~= p@);
    true
}

/// The first position of `p` in `s`.
pub fn find(s: &Vec<char>, p: &Vec<char>) -> (r: Option<usize>)
    ensures
        match r {
            Some(i) => first_at(s@, p@, i as int),
            None => !has_part(s@, p@),
        },
{
    if p.len() > s.len() {
        return None;
    }
    let last: usize = s.len() - p.len();
    let mut i: usize = 0;
    loop
        invariant
            i <= last,
            last + p@.len() == s@.len(),
            forall|j: int| 0 <= j < i ==> !occurs_at(s@, p@, j),
        decreases last - i,
    {
        if occurs(s, p, i) {
            return Some(i);
        }
        if i == last {
            assert forall|j: int| !occurs_at(s@, p@, j) by {}
            return None;
        }
        i += 1;
    }
}

/// Whether `s` begins with `p`.
pub fn starts_with(s: &str, p: &str) -> (r: bool)
    ensures
        r == has_prefix(s@, p@),
{
    let x = chars_of(s);
    let y = chars_of(p);
    occurs(&x, &y, 0)
}

/// Whether `p` stands somewhere in `s`.
pub fn contains(s: &str, p: &str) -> (r: bool)
    ensures
        r == has_part(s@, p@),
{
    let x = chars_of(s);
    let y = chars_of(p);
    match find(&x, &y) {
        Some(_) => true,
        None => false,
    }
}

/// What follows `p` in a text that begins with `p`.
pub open spec fn after_prefix(s: Seq<char>, p: Seq<char>) -> Option<Seq<char>> {
    if has_prefix(s, p) {
        Some(s.skip(p.len() as int))
    } else {
        None
    }
}

/// `s` without its leading `p`, if it begins with it.
pub fn strip_prefix(s: &str, p: &str) -> (r: Option<String>)
    ensures
        r.deep_view() == after_prefix(s@, p@),
{
    let x = chars_of(s);
    let y = chars_of(p);
    if occurs(&x, &y, 0) {
        let rest = string_of(&x, y.len(), x.len());
        assert(x@.subrange(y@.len() as int, x@.len() as int) =~= s@.skip(p@.len() as int));
        Some(rest)
    } else {
        None
    }
}

/// The two sides of the first `p` in `s`.
pub open spec fn parts_around(s: Seq<char>, p: Seq<char>) -> Option<(Seq<char>, Seq<char>)> {
    if has_part(s, p) {
        let i = choose|i: int| first_at(s, p, i);
        Some((s.take(i), s.skip(i + p.len())))
    } else {
        None
    }
}

/// The first position of a part is one position.
pub proof fn first_at_unique(s: Seq<char>, p: Seq<char>, i: int, j: int)
    requires
        first_at(s, p, i),
        first_at(s, p, j),
    ensures
        i == j,
{
    if i < j {
        assert(!occurs_at(s, p, i));
    }
    if j < i {
        assert(!occurs_at(s, p, j));
    }
}

/// `s` cut at the first `p`: what stands before it and what stands after it.
pub fn split_once(s: &str, p: &str) -> (r: Option<(String, String)>)
    ensures
        match r {
            Some((a, b)) => parts_around(s@, p@) == Some((a@, b@)),
            None => parts_around(s@, p@) is None,
        },
{
    let x = chars_of(s);
    let y = chars_of(p);
    match find(&x, &y) {
        Some(i) => {
            let n: usize = x.len();
            let a = string_of(&x, 0, i);
            let b = string_of(&x, i + y.len(), n);
            proof {
                assert(occurs_at(s@, p@, i as int));
                let k = choose|k: int| first_at(s@, p@, k);
                first_at_unique(s@, p@, i as int, k);
                assert(x@.subrange(0, i as int) =~= s@.take(i as int));
                assert(x@.subrange(i + y@.len(), x@.len() as int) =~= s@.skip(i + p@.len()));
            }
            Some((a, b))
        },
        None => None,
    }
}

// ── White space ─────────────────────────────────────────────────────────────────────────

/// The characters with the Unicode property `White_Space`.
pub open spec fn white(c: char) -> bool {
    let n = c as int;
    ||| 9 <= n <= 13
    ||| n == 0x20
    ||| n == 0x85
    ||| n == 0xA0
    ||| n == 0x1680
    ||| 0x2000 <= n <= 0x200A
    ||| n == 0x2028
    ||| n == 0x2029
    ||| n == 0x202F
    ||| n == 0x205F
    ||| n == 0x3000
}

/// Whether `c` is white space.
pub fn is_white(c: char) -> (r: bool)
    ensures
        r == white(c),
{
    let n: u32 = c as u32;
    (9 <= n && n <= 13) || n == 0x20 || n == 0x85 || n == 0xA0 || n == 0x1680 || (0x2000 <= n && n
        <= 0x200A) || n == 0x2028 || n == 0x2029 || n == 0x202F || n == 0x205F || n == 0x3000
}

/// `s` without its leading white space.
pub open spec fn trimmed_start(s: Seq<char>) -> Seq<char>
    decreases s.len(),
{
    if s.len() > 0 && white(s[0]) {
        trimmed_start(s.skip(1))
    } else {
        s
    }
}

/// `s` without its trailing white space.
pub open spec fn trimmed_end(s: Seq<char>) -> Seq<char>
    decreases s.len(),
{
    if s.len() > 0 && white(s.last()) {
        trimmed_end(s.drop_last())
    } else {
        s
    }
}

/// `s` without white space at either end.
pub open spec fn trimmed(s: Seq<char>) -> Seq<char> {
    trimmed_end(trimmed_start(s))
}

fn white_start(v: &Vec<char>) -> (r: usize)
    ensures
        r <= v@.len(),
        v@.skip(r as int) == trimmed_start(v@),
{
    let mut i: usize = 0;
    assert(v@.skip(0) =~= v@);
    while i < v.len() && is_white(v[i])
        invariant
            i <= v@.len(),
            trimmed_start(v@.skip(i as int)) == trimmed_start(v@),
        decreases v@.len() - i,
    {
        assert(v@.skip(i as int).skip(1) =~= v@.skip(i + 1));
        i += 1;
    }
    i
}

fn white_end(v: &Vec<char>, from: usize) -> (r: usize)
    requires
        from <= v@.len(),
    ensures
        from <= r <= v@.len(),
        v@.subrange(from as int, r as int) == trimmed_end(v@.skip(from as int)),
{
    let mut i: usize = v.len();
    assert(v@.subrange(from as int, i as int) =~= v@.skip(from as int));
    while i > from && is_white(v[i - 1])
        invariant
            from <= i <= v@.len(),
            trimmed_end(v@.subrange(from as int, i as int)) == trimmed_end(v@.skip(from as int)),
        decreases i,
    {
        assert(v@.subrange(from as int, i as int).drop_last() =~= v@.subrange(
            from as int,
            i - 1,
        ));
        i -= 1;
    }
    i
}

/// `s` without white space at either end.
pub fn trim(s: &str) -> (r: String)
    ensures
        r@ == trimmed(s@),
{
    let v = chars_of(s);
    let a = white_start(&v);
    let b = white_end(&v, a);
    string_of(&v, a, b)
}

/// `s` without its leading white space.
pub fn trim_start(s: &str) -> (r: String)
    ensures
        r@ == trimmed_start(s@),
{
    let v = chars_of(s);
    let a = white_start(&v);
    let r = string_of(&v, a, v.len());
    assert(v@.subrange(a as int, v@.len() as int) =~= v@.skip(a as int));
    r
}

/// `s` without its trailing white space.
pub fn trim_end(s: &str) -> (r: String)
    ensures
        r@ == trimmed_end(s@),
{
    let v = chars_of(s);
    let b = white_end(&v, 0);
    assert(v@.skip(0) =~= v@);
    string_of(&v, 0, b)
}

/// The number of words of `s`, where white space parts words.
pub open spec fn word_count(s: Seq<char>, in_word: bool) -> nat
    decreases s.len(),
{
    if s.len() == 0 {
        0
    } else if white(s[0]) {
        word_count(s.skip(1), false)
    } else {
        word_count(s.skip(1), true) + if in_word { 0nat } else { 1nat }
    }
}

/// The number of words of `s`.
pub fn count_words(s: &str) -> (r: usize)
    ensures
        r == word_count(s@, false),
{
    let v = chars_of(s);
    let mut n: usize = 0;
    let mut inside = false;
    let mut i: usize = 0;
    assert(v@.skip(0) =~= v@);
    while i < v.len()
        invariant
            i <= v@.len(),
            n <= i,
            n + word_count(v@.skip(i as int), inside) == word_count(v@, false),
        decreases v@.len() - i,
    {
        assert(v@.skip(i as int).skip(1) =~= v@.skip(i + 1));
        if is_white(v[i]) {
            inside = false;
        } else {
            if !inside {
                n += 1;
            }
            inside = true;
        }
        i += 1;
    }
    n
}

// ── Splitting and joining ───────────────────────────────────────────────────────────────

/// The pieces of `s` between the occurrences of `c`; one more than there are occurrences.
pub open spec fn pieces(s: Seq<char>, c: char) -> Seq<Seq<char>>
    decreases s.len(),
{
    if s.len() == 0 {
        seq![Seq::empty()]
    } else {
        let rest = pieces(s.drop_last(), c);
        if s.last() == c {
            rest.push(Seq::empty())
        } else {
            rest.drop_last().push(rest.last().push(s.last()))
        }
    }
}

proof fn pieces_nonempty(s: Seq<char>, c: char)
    ensures
        pieces(s, c).len() > 0,
    decreases s.len(),
{
    if s.len() > 0 {
        pieces_nonempty(s.drop_last(), c);
    }
}

/// `s` cut at every `c`.
pub fn split(s: &str, c: char) -> (r: Vec<String>)
    ensures
        r.deep_view() == pieces(s@, c),
        r@.len() > 0,
{
    let v = chars_of(s);
    let mut out: Vec<String> = Vec::new();
    let mut cur = String::new();
    let mut i: usize = 0;
    assert(v@.take(0) =~= Seq::<char>::empty());
    assert(out.deep_view().push(cur@) =~= pieces(v@.take(0), c));
    while i < v.len()
        invariant
            i <= v@.len(),
            out.deep_view().push(cur@) == pieces(v@.take(i as int), c),
        decreases v@.len() - i,
    {
        let ghost before = out.deep_view().push(cur@);
        proof {
            assert(v@.take(i + 1).drop_last() =~= v@.take(i as int));
            assert(before.drop_last() =~= out.deep_view());
        }
        if v[i] == c {
            let ghost o = out.deep_view();
            let ghost w = cur@;
            out.push(cur);
            assert(out.deep_view() =~= o.push(w));
            cur = String::new();
        } else {
            cur.push(v[i]);
        }
        i += 1;
    }
    assert(v@.take(i as int) =~= v@);
    let ghost o = out.deep_view();
    let ghost w = cur@;
    out.push(cur);
    assert(out.deep_view() =~= o.push(w));
    out
}

/// `parts` one after the other with `sep` between them.
pub open spec fn joined(parts: Seq<Seq<char>>, sep: Seq<char>) -> Seq<char>
    decreases parts.len(),
{
    if parts.len() == 0 {
        Seq::empty()
    } else if parts.len() == 1 {
        parts[0]
    } else {
        joined(parts.drop_last(), sep) + sep + parts.last()
    }
}

/// `parts[from..to]` one after the other with `sep` between them.
pub fn join_range(parts: &Vec<String>, from: usize, to: usize, sep: &str) -> (r: String)
    requires
        from <= to <= parts@.len(),
    ensures
        r@ == joined(parts.deep_view().subrange(from as int, to as int), sep@),
{
    let ghost all = parts.deep_view().subrange(from as int, to as int);
    let mut out = String::new();
    let mut i: usize = from;
    while i < to
        invariant
            from <= i <= to <= parts@.len(),
            all == parts.deep_view().subrange(from as int, to as int),
            out@ == joined(all.take(i - from), sep@),
        decreases to - i,
    {
        proof {
            assert(all.take(i + 1 - from).drop_last() =~= all.take(i - from));
            assert(all.take(i + 1 - from).last() == parts@[i as int]@);
        }
        if i > from {
            out.append(sep);
        }
        out.append(parts[i].as_str());
        proof {
            if i == from {
                assert(out@ =~= parts@[i as int]@);
            }
        }
        i += 1;
    }
    assert(all.take(i - from) =~= all);
    out
}

/// `parts[from..]` one after the other with `sep` between them.
pub fn join_from(parts: &Vec<String>, from: usize, sep: &str) -> (r: String)
    requires
        from <= parts@.len(),
    ensures
        r@ == joined(parts.deep_view().skip(from as int), sep@),
{
    assert(parts.deep_view().skip(from as int) =~= parts.deep_view().subrange(
        from as int,
        parts@.len() as int,
    ));
    join_range(parts, from, parts.len(), sep)
}

/// `parts` one after the other with `sep` between them.
pub fn join(parts: &Vec<String>, sep: &str) -> (r: String)
    ensures
        r@ == joined(parts.deep_view(), sep@),
{
    assert(parts.deep_view().skip(0) =~= parts.deep_view());
    join_from(parts, 0, sep)
}

/// One line without its line ending.
pub open spec fn line_body(s: Seq<char>) -> Seq<char> {
    if s.len() > 0 && s.last() == '\r' {
        s.drop_last()
    } else {
        s
    }
}

/// The lines of a text: it is cut at every line feed, a carriage return before a line feed
/// belongs to the line ending, and nothing follows a final line feed.
pub open spec fn line_seq(s: Seq<char>) -> Seq<Seq<char>> {
    let p = pieces(s, '\n');
    let heads = p.drop_last().map_values(|l: Seq<char>| line_body(l));
    if p.last().len() == 0 {
        heads
    } else {
        heads.push(p.last())
    }
}

fn strip_cr(s: &String) -> (r: String)
    ensures
        r@ == line_body(s@),
{
    let v = chars_of(s.as_str());
    if v.len() > 0 && v[v.len() - 1] == '\r' {
        let r = string_of(&v, 0, v.len() - 1);
        assert(r@ =~= s@.drop_last());
        r
    } else {
        s.clone()
    }
}

/// The lines of `s`.
pub fn lines(s: &str) -> (r: Vec<String>)
    ensures
        r.deep_view() == line_seq(s@),
{
    let p = split(s, '\n');
    let ghost pv = p.deep_view();
    let n: usize = p.len() - 1;
    let mut out: Vec<String> = Vec::new();
    let mut i: usize = 0;
    while i < n
        invariant
            i <= n,
            n + 1 == p@.len(),
            out@.len() == i,
            forall|j: int| 0 <= j < i ==> (#[trigger] out@[j])@ == line_body(p@[j]@),
        decreases n - i,
    {
        out.push(strip_cr(&p[i]));
        i += 1;
    }
    proof {
        assert(out.deep_view() =~= pv.drop_last().map_values(|l: Seq<char>| line_body(l)));
        assert(pv.last() == p@[n as int]@);
    }
    let last = chars_of(p[n].as_str());
    if last.len() > 0 {
        let ghost o = out.deep_view();
        out.push(p[n].clone());
        assert(out.deep_view() =~= o.push(p@[n as int]@));
    }
    out
}

/// A text that holds no line feed.
pub open spec fn on_one_line(s: Seq<char>) -> bool {
    forall|i: int| 0 <= i < s.len() ==> #[trigger] s[i] != '\n'
}

/// A text without the character is one piece.
pub proof fn one_piece(s: Seq<char>, c: char)
    requires
        forall|i: int| 0 <= i < s.len() ==> #[trigger] s[i] != c,
    ensures
        pieces(s, c) == seq![s],
    decreases s.len(),
{
    if s.len() > 0 {
        let init = s.drop_last();
        assert forall|i: int| 0 <= i < init.len() implies #[trigger] init[i] != c by {
            assert(init[i] == s[i]);
        }
        one_piece(init, c);
        assert(s.last() == s[s.len() - 1]);
        assert(pieces(s, c) =~= seq![init.push(s.last())]);
        assert(init.push(s.last()) =~= s);
    } else {
        assert(pieces(s, c)[0] =~= s);
        assert(pieces(s, c) =~= seq![s]);
    }
}

/// The pieces on the two sides of a cut are the pieces of the whole.
pub proof fn pieces_around(a: Seq<char>, c: char, b: Seq<char>)
    ensures
        pieces(a.push(c) + b, c) == pieces(a, c) + pieces(b, c),
        pieces(b, c).len() > 0,
    decreases b.len(),
{
    let s = a.push(c) + b;
    pieces_nonempty(b, c);
    if b.len() == 0 {
        assert(s =~= a.push(c));
        assert(s.drop_last() =~= a);
        assert(pieces(s, c) =~= pieces(a, c) + pieces(b, c));
    } else {
        let init = b.drop_last();
        pieces_around(a, c, init);
        assert(s.drop_last() =~= a.push(c) + init);
        assert(s.last() == b.last());
        let rest = pieces(a, c) + pieces(init, c);
        assert(rest.last() == pieces(init, c).last());
        assert(rest.drop_last() =~= pieces(a, c) + pieces(init, c).drop_last());
        assert(pieces(s, c) =~= pieces(a, c) + pieces(b, c));
    }
}

/// A piece is a part of the text.
pub proof fn a_piece_is_a_part(s: Seq<char>, c: char, i: int) -> (at: int)
    requires
        0 <= i < pieces(s, c).len(),
    ensures
        0 <= at,
        at + pieces(s, c)[i].len() <= s.len(),
        pieces(s, c)[i] == s.subrange(at, at + pieces(s, c)[i].len()),
        i == pieces(s, c).len() - 1 ==> at + pieces(s, c)[i].len() == s.len(),
    decreases s.len(),
{
    let p = pieces(s, c);
    if s.len() == 0 {
        assert(p[i] =~= s.subrange(0, 0));
        0
    } else {
        let init = s.drop_last();
        let rest = pieces(init, c);
        pieces_nonempty(init, c);
        if i < rest.len() - 1 || (i == rest.len() - 1 && s.last() == c) {
            let at = a_piece_is_a_part(init, c, i);
            assert(p[i] == rest[i]);
            assert(init.subrange(at, at + rest[i].len()) =~= s.subrange(at, at + rest[i].len()));
            at
        } else if s.last() == c {
            assert(p[i] =~= s.subrange(s.len() as int, s.len() as int));
            s.len() as int
        } else {
            let at = a_piece_is_a_part(init, c, i);
            assert(p[i] == rest[i].push(s.last()));
            assert(s.subrange(at, s.len() as int) =~= init.subrange(at, init.len() as int).push(
                s.last(),
            ));
            at
        }
    }
}

/// The lines of whole lines and what follows them are the lines of the one and then of the
/// other.
pub proof fn lines_add_up(a: Seq<char>, b: Seq<char>)
    requires
        a.len() > 0 ==> a.last() == '\n',
    ensures
        line_seq(a + b) == line_seq(a) + line_seq(b),
{
    let body = |l: Seq<char>| line_body(l);
    if a.len() == 0 {
        assert(a + b =~= b);
        assert(pieces(a, '\n') =~= seq![Seq::empty()]);
        assert(line_seq(a) =~= Seq::empty());
        assert(line_seq(a) + line_seq(b) =~= line_seq(b));
    } else {
        let init = a.drop_last();
        let p = pieces(init, '\n');
        let q = pieces(b, '\n');
        assert(a =~= init.push('\n'));
        pieces_around(init, '\n', b);
        pieces_around(init, '\n', Seq::empty());
        assert(a + Seq::empty() =~= a);
        assert(pieces(Seq::<char>::empty(), '\n') =~= seq![Seq::empty()]);
        assert((p + seq![Seq::<char>::empty()]).drop_last() =~= p);
        assert(line_seq(a) =~= p.map_values(body));
        assert((p + q).drop_last() =~= p + q.drop_last());
        assert((p + q).last() == q.last());
        assert((p + q.drop_last()).map_values(body) =~= p.map_values(body)
            + q.drop_last().map_values(body));
        assert(line_seq(a + b) =~= line_seq(a) + line_seq(b));
    }
}

/// A text on one line, with a line feed behind it, is that line.
pub proof fn one_whole_line(s: Seq<char>)
    requires
        on_one_line(s),
    ensures
        line_seq(s.push('\n')) == seq![line_body(s)],
{
    one_piece(s, '\n');
    pieces_around(s, '\n', Seq::empty());
    assert(s.push('\n') + Seq::empty() =~= s.push('\n'));
    assert(pieces(Seq::<char>::empty(), '\n') =~= seq![Seq::empty()]);
    assert((seq![s] + seq![Seq::<char>::empty()]).drop_last() =~= seq![s]);
    assert(line_seq(s.push('\n')) =~= seq![line_body(s)]);
}

/// A line of a text begins with nothing that is not a part of the text.
pub proof fn a_line_is_a_part(s: Seq<char>, i: int, p: Seq<char>)
    requires
        0 <= i < line_seq(s).len(),
        has_prefix(line_seq(s)[i], p),
    ensures
        has_part(s, p),
{
    let q = pieces(s, '\n');
    pieces_nonempty(s, '\n');
    assert(i < q.len());
    let at = a_piece_is_a_part(s, '\n', i);
    let line = line_seq(s)[i];
    assert(line.len() <= q[i].len());
    assert(line =~= q[i].subrange(0, line.len() as int));
    assert(line.subrange(0, p.len() as int) =~= s.subrange(at, at + p.len()));
    assert(occurs_at(s, p, at));
}

/// The number of bytes that a character takes in UTF-8.
pub open spec fn char_bytes(c: char) -> nat {
    if (c as int) < 0x80 {
        1
    } else if (c as int) < 0x800 {
        2
    } else if (c as int) < 0x10000 {
        3
    } else {
        4
    }
}

/// The number of bytes that a text takes in UTF-8.
pub open spec fn byte_len(s: Seq<char>) -> nat
    decreases s.len(),
{
    if s.len() == 0 {
        0
    } else {
        byte_len(s.drop_last()) + char_bytes(s.last())
    }
}

/// The number of characters at the front of a text that fit into `max` bytes.
pub open spec fn fitting(s: Seq<char>, max: nat) -> int
    decreases s.len(),
{
    if byte_len(s) <= max {
        s.len() as int
    } else if s.len() == 0 {
        0
    } else {
        fitting(s.drop_last(), max)
    }
}

proof fn bytes_grow(s: Seq<char>, i: int)
    requires
        0 <= i <= s.len(),
    ensures
        byte_len(s.take(i)) <= byte_len(s),
    decreases s.len() - i,
{
    if i < s.len() {
        bytes_grow(s, i + 1);
        assert(s.take(i + 1).drop_last() =~= s.take(i));
    } else {
        assert(s.take(i) =~= s);
    }
}

proof fn fitting_is(s: Seq<char>, max: nat, k: int)
    requires
        0 <= k < s.len(),
        byte_len(s.take(k)) <= max,
        byte_len(s.take(k + 1)) > max,
    ensures
        fitting(s, max) == k,
    decreases s.len(),
{
    bytes_grow(s, k + 1);
    reveal_with_fuel(fitting, 2);
    if k + 1 == s.len() {
        assert(s.drop_last() =~= s.take(k));
    } else {
        let d = s.drop_last();
        assert(d.take(k) =~= s.take(k));
        assert(d.take(k + 1) =~= s.take(k + 1));
        fitting_is(d, max, k);
    }
}

/// The characters at the front of a text that fit into `max` bytes; nothing where all do.
pub fn fit(s: &str, max: usize) -> (r: Option<String>)
    ensures
        r is None <==> byte_len(s@) <= max,
        r is Some ==> r->0@ == s@.take(fitting(s@, max as nat)),
{
    let v = chars_of(s);
    let mut left: usize = max;
    let mut i: usize = 0;
    assert(v@.take(0) =~= Seq::empty());
    while i < v.len()
        invariant
            i <= v@.len(),
            v@ == s@,
            left <= max,
            max - left == byte_len(v@.take(i as int)),
        decreases v@.len() - i,
    {
        let c = v[i];
        let one = '\u{7f}' >= c;
        let two = '\u{7ff}' >= c;
        let three = '\u{ffff}' >= c;
        let w: usize = if one {
            1
        } else if two {
            2
        } else if three {
            3
        } else {
            4
        };
        proof {
            assert(v@.take(i + 1).drop_last() =~= v@.take(i as int));
            assert(v@.take(i + 1).last() == c);
            assert(w == char_bytes(c));
        }
        if w > left {
            proof {
                fitting_is(v@, max as nat, i as int);
                bytes_grow(v@, i + 1);
            }
            let out = string_of(&v, 0, i);
            assert(out@ =~= s@.take(i as int));
            return Some(out);
        }
        left = left - w;
        i += 1;
    }
    assert(v@.take(i as int) =~= v@);
    None
}

/// `s` with every `p` replaced by `w`, from left to right, without overlap.
pub open spec fn replaced(s: Seq<char>, p: Seq<char>, w: Seq<char>) -> Seq<char>
    decreases s.len(),
{
    if s.len() == 0 {
        Seq::empty()
    } else if p.len() > 0 && has_prefix(s, p) {
        w + replaced(s.skip(p.len() as int), p, w)
    } else {
        seq![s[0]] + replaced(s.skip(1), p, w)
    }
}

/// `s` with every `p` replaced by `w`.
pub fn replace(s: &str, p: &str, w: &str) -> (r: String)
    requires
        p@.len() > 0,
    ensures
        r@ == replaced(s@, p@, w@),
{
    let v = chars_of(s);
    let q = chars_of(p);
    let mut out = String::new();
    let mut i: usize = 0;
    assert(v@.skip(0) =~= v@);
    assert(Seq::<char>::empty() + replaced(v@, p@, w@) =~= replaced(v@, p@, w@));
    while i < v.len()
        invariant
            i <= v@.len(),
            q@ == p@,
            p@.len() > 0,
            v@ == s@,
            out@ + replaced(v@.skip(i as int), p@, w@) == replaced(s@, p@, w@),
        decreases v@.len() - i,
    {
        let ghost rest = v@.skip(i as int);
        let ghost o = out@;
        if occurs(&v, &q, i) {
            proof {
                assert(rest.subrange(0, p@.len() as int) =~= v@.subrange(i as int, i + p@.len()));
                assert(has_prefix(rest, p@));
                assert(rest.skip(p@.len() as int) =~= v@.skip(i + p@.len()));
            }
            out.append(w);
            i += q.len();
            proof {
                assert(out@ + replaced(v@.skip(i as int), p@, w@) =~= o + (w@ + replaced(
                    v@.skip(i as int),
                    p@,
                    w@,
                )));
            }
        } else {
            proof {
                if has_prefix(rest, p@) {
                    assert(rest.subrange(0, p@.len() as int) =~= v@.subrange(
                        i as int,
                        i + p@.len(),
                    ));
                }
                assert(rest.skip(1) =~= v@.skip(i + 1));
            }
            out.push(v[i]);
            i += 1;
            proof {
                assert(out@ + replaced(v@.skip(i as int), p@, w@) =~= o + (seq![rest[0]]
                    + replaced(v@.skip(i as int), p@, w@)));
            }
        }
    }
    assert(out@ + Seq::<char>::empty() =~= out@);
    out
}

/// `c` as a lower-case letter where it is an ASCII capital.
pub open spec fn lower(c: char) -> char {
    if 'A' <= c && c <= 'Z' {
        ((c as int) + 32) as char
    } else {
        c
    }
}

/// `s` with its ASCII capitals in lower case.
pub open spec fn lowered(s: Seq<char>) -> Seq<char> {
    s.map_values(|c: char| lower(c))
}

/// `s` with its ASCII capitals in lower case.
pub fn to_ascii_lowercase(s: &str) -> (r: String)
    ensures
        r@ == lowered(s@),
{
    let v = chars_of(s);
    let mut out = String::new();
    let mut i: usize = 0;
    assert(out@ =~= lowered(v@.take(0)));
    while i < v.len()
        invariant
            i <= v@.len(),
            out@ == lowered(v@.take(i as int)),
        decreases v@.len() - i,
    {
        let c = v[i];
        if 'A' <= c && c <= 'Z' {
            let b: u8 = c as u8;
            out.push((b + 32) as char);
        } else {
            out.push(c);
        }
        assert(out@ =~= lowered(v@.take(i + 1)));
        i += 1;
    }
    assert(v@.take(i as int) =~= v@);
    out
}

// ── Numbers ─────────────────────────────────────────────────────────────────────────────

/// The digit character of a number below ten.
pub open spec fn digit(d: int) -> char {
    (d + 48) as char
}

/// The decimal digits of a natural number.
pub open spec fn nat_text(n: nat) -> Seq<char>
    decreases n,
{
    if n < 10 {
        seq![digit(n as int)]
    } else {
        nat_text(n / 10).push(digit((n % 10) as int))
    }
}

/// A whole number in decimal, with a minus sign where it is negative.
pub open spec fn int_text(n: int) -> Seq<char> {
    if n < 0 {
        seq!['-'] + nat_text((-n) as nat)
    } else {
        nat_text(n as nat)
    }
}

/// The decimal digits of `n`.
pub fn u128_text(n: u128) -> (r: String)
    ensures
        r@ == nat_text(n as nat),
    decreases n,
{
    let d: u8 = 48 + (n % 10) as u8;
    if n < 10 {
        let mut out = String::new();
        out.push(d as char);
        assert(out@ =~= seq![digit(n as int)]);
        out
    } else {
        let mut out = u128_text(n / 10);
        out.push(d as char);
        out
    }
}

/// `n` in decimal.
pub fn u64_text(n: u64) -> (r: String)
    ensures
        r@ == int_text(n as int),
{
    u128_text(n as u128)
}

/// `n` in decimal.
pub fn i64_text(n: i64) -> (r: String)
    ensures
        r@ == int_text(n as int),
{
    if n < 0 {
        let mut out = String::new();
        out.push('-');
        let m: i128 = -(n as i128);
        let digits = u128_text(m as u128);
        out.append(digits.as_str());
        assert(out@ =~= int_text(n as int));
        out
    } else {
        u128_text(n as u128)
    }
}

/// `c` is one of the ten digits.
pub open spec fn is_digit(c: char) -> bool {
    '0' <= c && c <= '9'
}

/// The value of a sequence of digits, most significant first.
pub open spec fn digits_value(s: Seq<char>) -> nat
    decreases s.len(),
{
    if s.len() == 0 {
        0
    } else {
        10 * digits_value(s.drop_last()) + ((s.last() as int) - 48) as nat
    }
}

/// `s` is one digit or more and nothing else.
pub open spec fn all_digits(s: Seq<char>) -> bool {
    s.len() > 0 && forall|i: int| 0 <= i < s.len() ==> is_digit(s[i])
}

/// The natural number that `s` writes in decimal, with or without a plus sign.
pub open spec fn read_nat(s: Seq<char>) -> Option<nat> {
    let d = if s.len() > 0 && s[0] == '+' { s.skip(1) } else { s };
    if all_digits(d) {
        Some(digits_value(d))
    } else {
        None
    }
}

/// The whole number that `s` writes in decimal, with or without a sign.
pub open spec fn read_int(s: Seq<char>) -> Option<int> {
    if s.len() > 0 && s[0] == '-' {
        if all_digits(s.skip(1)) {
            Some(-(digits_value(s.skip(1)) as int))
        } else {
            None
        }
    } else {
        match read_nat(s) {
            Some(n) => Some(n as int),
            None => None,
        }
    }
}

proof fn nat_text_reads_back(n: nat)
    ensures
        all_digits(nat_text(n)),
        digits_value(nat_text(n)) == n,
    decreases n,
{
    let t = nat_text(n);
    let d: int = (n % 10) as int;
    assert(0 <= d < 10);
    assert(is_digit(digit(d)) && digit(d) as int == d + 48);
    if n < 10 {
        assert(t.drop_last() =~= Seq::empty());
        assert(digits_value(t.drop_last()) == 0);
        assert(t.last() == digit(d));
    } else {
        nat_text_reads_back(n / 10);
        assert(t.drop_last() =~= nat_text(n / 10));
        assert(t.last() == digit(d));
        assert forall|i: int| 0 <= i < t.len() implies is_digit(t[i]) by {
            if i < t.len() - 1 {
                assert(t[i] == nat_text(n / 10)[i]);
            }
        }
    }
}

/// A number that was written reads back, and has no white space around it.
pub proof fn a_number_reads_back(n: int)
    ensures
        read_int(int_text(n)) == Some(n),
        trimmed(int_text(n)) == int_text(n),
        on_one_line(int_text(n)),
{
    let t = int_text(n);
    if n < 0 {
        nat_text_reads_back((-n) as nat);
        assert(t.skip(1) =~= nat_text((-n) as nat));
        assert forall|i: int| 0 <= i < t.len() implies t[i] == '-' || is_digit(#[trigger] t[i]) by {
            if i > 0 {
                assert(t[i] == t.skip(1)[i - 1]);
            }
        }
    } else {
        nat_text_reads_back(n as nat);
    }
    assert(forall|i: int| 0 <= i < t.len() ==> (t[i] == '-' || is_digit(#[trigger] t[i])));
    assert(!white(t[0]));
    assert(t.last() == t[t.len() - 1]);
    assert(!white(t.last()));
}

proof fn digits_value_grows(s: Seq<char>, i: int)
    requires
        0 <= i <= s.len(),
        forall|j: int| 0 <= j < s.len() ==> is_digit(s[j]),
    ensures
        digits_value(s.take(i)) <= digits_value(s),
    decreases s.len() - i,
{
    if i < s.len() {
        digits_value_grows(s, i + 1);
        assert(s.take(i + 1).drop_last() =~= s.take(i));
    } else {
        assert(s.take(i) =~= s);
    }
}

/// The value of the digits `v[from..]`, or nothing where they are not all digits, there are
/// none of them, or the value is above `max`.
fn parse_digits(v: &Vec<char>, from: usize, max: u128) -> (r: Option<u128>)
    requires
        from <= v@.len(),
    ensures
        match r {
            Some(n) => all_digits(v@.skip(from as int)) && n == digits_value(v@.skip(from as int))
                && n <= max,
            None => !all_digits(v@.skip(from as int)) || digits_value(v@.skip(from as int)) > max,
        },
{
    let ghost d = v@.skip(from as int);
    if from == v.len() {
        return None;
    }
    let mut k: usize = from;
    while k < v.len()
        invariant
            from <= k <= v@.len(),
            d == v@.skip(from as int),
            forall|j: int| 0 <= j < k - from ==> is_digit(d[j]),
        decreases v@.len() - k,
    {
        let c = v[k];
        if !('0' <= c && c <= '9') {
            assert(!is_digit(d[k - from]));
            return None;
        }
        k += 1;
    }
    let mut n: u128 = 0;
    let mut i: usize = from;
    assert(d.take(0) =~= Seq::<char>::empty());
    while i < v.len()
        invariant
            from <= i <= v@.len(),
            d == v@.skip(from as int),
            forall|j: int| 0 <= j < d.len() ==> is_digit(d[j]),
            n == digits_value(d.take(i - from)),
            n <= max,
        decreases v@.len() - i,
    {
        let c = v[i];
        proof {
            assert(is_digit(d[i - from]));
            assert(d.take(i + 1 - from).drop_last() =~= d.take(i - from));
            assert(d.take(i + 1 - from).last() == c);
            digits_value_grows(d, i + 1 - from);
        }
        let x: u128 = (c as u32 - 48) as u128;
        if n > (u128::MAX - x) / 10 {
            assert(10 * n + x > u128::MAX);
            return None;
        }
        n = 10 * n + x;
        if n > max {
            return None;
        }
        i += 1;
    }
    assert(d.take(i - from) =~= d);
    Some(n)
}

/// The natural number, at most `max`, that `s` writes in decimal.
pub fn parse_nat(s: &str, max: u128) -> (r: Option<u128>)
    ensures
        match r {
            Some(n) => read_nat(s@) == Some(n as nat) && n <= max,
            None => read_nat(s@) is None || read_nat(s@)->0 > max,
        },
{
    let v = chars_of(s);
    if v.len() > 0 && v[0] == '+' {
        parse_digits(&v, 1, max)
    } else {
        assert(v@.skip(0) =~= v@);
        parse_digits(&v, 0, max)
    }
}

/// The 64-bit whole number that `s` writes in decimal.
pub fn parse_i64(s: &str) -> (r: Option<i64>)
    ensures
        match r {
            Some(n) => read_int(s@) == Some(n as int),
            None => read_int(s@) is None || read_int(s@)->0 < i64::MIN || read_int(s@)->0
                > i64::MAX,
        },
{
    let v = chars_of(s);
    if v.len() > 0 && v[0] == '-' {
        match parse_digits(&v, 1, 0x8000_0000_0000_0000) {
            Some(n) => {
                let m: i128 = -(n as i128);
                Some(m as i64)
            },
            None => None,
        }
    } else {
        match parse_nat(s, 0x7fff_ffff_ffff_ffff) {
            Some(n) => Some(n as i64),
            None => None,
        }
    }
}

// ── Spans of time ───────────────────────────────────────────────────────────────────────

/// A part of a second in thousandths, without zeros at the end.
pub open spec fn fraction_text(r: int) -> Seq<char> {
    if r == 0 {
        Seq::empty()
    } else if r % 100 == 0 {
        seq!['.', digit(r / 100)]
    } else if r % 10 == 0 {
        seq!['.', digit(r / 100), digit(r / 10 % 10)]
    } else {
        seq!['.', digit(r / 100), digit(r / 10 % 10), digit(r % 10)]
    }
}

/// A span of milliseconds, in seconds where it is a second or more.
pub open spec fn span_text(ms: nat) -> Seq<char> {
    if ms == 0 {
        "0ns"@
    } else if ms < 1000 {
        nat_text(ms) + "ms"@
    } else {
        nat_text(ms / 1000) + fraction_text((ms % 1000) as int) + "s"@
    }
}

fn push_digit(out: &mut String, d: u64)
    requires
        d < 10,
    ensures
        final(out)@ == old(out)@.push(digit(d as int)),
{
    let b: u8 = d as u8 + 48;
    out.push(b as char);
}

/// A span of milliseconds as it is shown.
pub fn show_span(ms: u64) -> (r: String)
    ensures
        r@ == span_text(ms as nat),
{
    if ms == 0 {
        return owned("0ns");
    }
    if ms < 1000 {
        let mut out = u64_text(ms);
        out.append("ms");
        return out;
    }
    let mut out = u64_text(ms / 1000);
    let ghost whole = out@;
    let r: u64 = ms % 1000;
    if r != 0 {
        out.push('.');
        push_digit(&mut out, r / 100);
        if r % 100 != 0 {
            push_digit(&mut out, r / 10 % 10);
            if r % 10 != 0 {
                push_digit(&mut out, r % 10);
            }
        }
    }
    assert(out@ =~= whole + fraction_text(r as int));
    out.append("s");
    out
}

// ── Lists of texts ──────────────────────────────────────────────────────────────────────

/// Adds a copy of a text.
pub fn push_one(v: &mut Vec<String>, a: &str)
    ensures
        final(v).deep_view() == old(v).deep_view() + seq![a@],
{
    let ghost o = v.deep_view();
    v.push(owned(a));
    assert(v.deep_view() =~= o + seq![a@]);
}

/// Adds copies of two texts.
pub fn push_two(v: &mut Vec<String>, a: &str, b: &str)
    ensures
        final(v).deep_view() == old(v).deep_view() + seq![a@, b@],
{
    let ghost o = v.deep_view();
    v.push(owned(a));
    v.push(owned(b));
    assert(v.deep_view() =~= o + seq![a@, b@]);
}

/// Adds copies of the texts from a position on.
pub fn push_from(v: &mut Vec<String>, more: &Vec<String>, from: usize)
    requires
        from <= more@.len(),
    ensures
        final(v).deep_view() == old(v).deep_view() + more.deep_view().skip(from as int),
{
    let ghost o = v.deep_view();
    let ghost m = more.deep_view().skip(from as int);
    let mut i: usize = from;
    assert(o + m.take(0) =~= o);
    while i < more.len()
        invariant
            from <= i <= more@.len(),
            m == more.deep_view().skip(from as int),
            v.deep_view() == o + m.take(i - from),
        decreases more@.len() - i,
    {
        push_one(v, more[i].as_str());
        assert(m.take(i + 1 - from) =~= m.take(i - from).push(more@[i as int]@));
        assert(v.deep_view() =~= o + m.take(i + 1 - from));
        i += 1;
    }
    assert(m.take(i - from) =~= m);
}

// ── Laws of texts ───────────────────────────────────────────────────────────────────────

/// A text is its pieces with the separator put back between them, and no piece holds the
/// separator.
pub proof fn pieces_join_to_the_text(s: Seq<char>, c: char)
    ensures
        joined(pieces(s, c), seq![c]) == s,
        pieces(s, c).len() > 0,
        forall|i: int, j: int|
            0 <= i < pieces(s, c).len() && 0 <= j < pieces(s, c)[i].len() ==> #[trigger] pieces(
                s,
                c,
            )[i][j] != c,
    decreases s.len(),
{
    if s.len() > 0 {
        let init = s.drop_last();
        pieces_join_to_the_text(init, c);
        let rest = pieces(init, c);
        let p = pieces(s, c);
        assert(s =~= init.push(s.last()));
        if s.last() == c {
            assert(p.drop_last() =~= rest);
            assert(joined(p, seq![c]) =~= s);
        } else if rest.len() == 1 {
            assert(joined(p, seq![c]) =~= s);
        } else {
            assert(p.drop_last() =~= rest.drop_last());
            assert(joined(p, seq![c]) =~= s);
        }
        assert forall|i: int, j: int| 0 <= i < p.len() && 0 <= j < p[i].len() implies #[trigger] p[i][j]
            != c by {
            if i < p.len() - 1 {
                assert(p[i] == rest[i]);
                assert(rest[i][j] != c);
            } else if s.last() != c && j < p[i].len() - 1 {
                assert(p[i][j] == rest[rest.len() - 1][j]);
                assert(rest[rest.len() - 1][j] != c);
            }
        }
    }
}

/// Parts without the separator are what their joined text is cut into.
pub proof fn joined_parts_are_its_pieces(parts: Seq<Seq<char>>, c: char)
    requires
        parts.len() > 0,
        forall|i: int, j: int|
            0 <= i < parts.len() && 0 <= j < parts[i].len() ==> #[trigger] parts[i][j] != c,
    ensures
        pieces(joined(parts, seq![c]), c) == parts,
    decreases parts.len(),
{
    let last = parts.last();
    assert(last == parts[parts.len() - 1]);
    assert forall|j: int| 0 <= j < last.len() implies #[trigger] last[j] != c by {
        assert(parts[parts.len() - 1][j] != c);
    }
    one_piece(last, c);
    if parts.len() == 1 {
        assert(parts =~= seq![last]);
    } else {
        let init = parts.drop_last();
        assert forall|i: int, j: int|
            0 <= i < init.len() && 0 <= j < init[i].len() implies #[trigger] init[i][j] != c by {
            assert(parts[i][j] != c);
        }
        joined_parts_are_its_pieces(init, c);
        let a = joined(init, seq![c]);
        assert(joined(parts, seq![c]) =~= a.push(c) + last);
        pieces_around(a, c, last);
        assert(init + seq![last] =~= parts);
    }
}

proof fn trimming_the_start(s: Seq<char>)
    ensures
        trimmed_start(s).len() <= s.len(),
        trimmed_start(s) == s.skip(s.len() - trimmed_start(s).len()),
        forall|i: int|
            0 <= i < s.len() - trimmed_start(s).len() ==> white(#[trigger] s[i]),
        trimmed_start(s).len() > 0 ==> !white(trimmed_start(s)[0]),
    decreases s.len(),
{
    if s.len() > 0 && white(s[0]) {
        trimming_the_start(s.skip(1));
        let t = trimmed_start(s);
        assert(s.skip(1).skip(s.len() - 1 - t.len()) =~= s.skip(s.len() - t.len()));
        assert forall|i: int| 0 <= i < s.len() - t.len() implies white(#[trigger] s[i]) by {
            if i > 0 {
                assert(s.skip(1)[i - 1] == s[i]);
            }
        }
    } else {
        assert(s.skip(0) =~= s);
    }
}

proof fn trimming_the_end(s: Seq<char>)
    ensures
        trimmed_end(s).len() <= s.len(),
        trimmed_end(s) == s.take(trimmed_end(s).len() as int),
        forall|i: int| trimmed_end(s).len() <= i < s.len() ==> white(#[trigger] s[i]),
        trimmed_end(s).len() > 0 ==> !white(trimmed_end(s).last()),
    decreases s.len(),
{
    if s.len() > 0 && white(s.last()) {
        let init = s.drop_last();
        trimming_the_end(init);
        let t = trimmed_end(s);
        assert(init.take(t.len() as int) =~= s.take(t.len() as int));
        assert forall|i: int| t.len() <= i < s.len() implies white(#[trigger] s[i]) by {
            if i < s.len() - 1 {
                assert(init[i] == s[i]);
            }
        }
    } else {
        assert(s.take(s.len() as int) =~= s);
    }
}

/// Trimming takes white space off the ends and nothing else: what is left stands somewhere in
/// the text with white space alone around it, and neither begins nor ends with any.
pub proof fn trimming_takes_white_space_alone(s: Seq<char>)
    ensures
        ({
            let t = trimmed(s);
            &&& t.len() > 0 ==> !white(t[0]) && !white(t.last())
            &&& exists|i: int|
                {
                    &&& #[trigger] occurs_at(s, t, i)
                    &&& forall|k: int|
                        0 <= k < s.len() && !(i <= k < i + t.len()) ==> white(#[trigger] s[k])
                }
        }),
        forall|i: int|
            trimmed_end(s).len() <= i < s.len() ==> white(#[trigger] s[i]),
        trimmed_end(s) == s.take(trimmed_end(s).len() as int),
        trimmed_end(s).len() > 0 ==> !white(trimmed_end(s).last()),
{
    let u = trimmed_start(s);
    let t = trimmed(s);
    trimming_the_start(s);
    trimming_the_end(u);
    trimming_the_end(s);
    let i = s.len() - u.len();
    assert(s.subrange(i, i + t.len()) =~= t);
    assert(occurs_at(s, t, i));
    assert forall|k: int| 0 <= k < s.len() && !(i <= k < i + t.len()) implies white(
        #[trigger] s[k],
    ) by {
        if k >= i {
            assert(u[k - i] == s[k]);
        }
    }
    if t.len() > 0 {
        assert(t[0] == u[0]);
    }
}

/// Replacing changes nothing where the part does not stand, and puts the other in its place
/// where it does.
pub proof fn replacing_changes_the_part_alone(s: Seq<char>, p: Seq<char>, w: Seq<char>, b: Seq<char>)
    requires
        p.len() > 0,
    ensures
        !has_part(s, p) ==> replaced(s, p, w) == s,
        replaced(p + b, p, w) == w + replaced(b, p, w),
    decreases s.len(),
{
    let t = p + b;
    assert(t.subrange(0, p.len() as int) =~= p);
    assert(t.skip(p.len() as int) =~= b);
    if s.len() > 0 && !has_part(s, p) {
        assert(!occurs_at(s, p, 0));
        let r = s.skip(1);
        if has_part(r, p) {
            let i = choose|i: int| occurs_at(r, p, i);
            assert(s.subrange(i + 1, i + 1 + p.len()) =~= r.subrange(i, i + p.len()));
            assert(occurs_at(s, p, i + 1));
        }
        replacing_changes_the_part_alone(r, p, w, b);
        assert(s =~= seq![s[0]] + r);
    }
}

/// What fits into some bytes is a front of the text: it fits, and one character more does not.
pub proof fn the_longest_front_fits(s: Seq<char>, max: nat)
    ensures
        0 <= fitting(s, max) <= s.len(),
        byte_len(s.take(fitting(s, max))) <= max,
        fitting(s, max) < s.len() ==> byte_len(s.take(fitting(s, max) + 1)) > max,
    decreases s.len(),
{
    assert(s.take(s.len() as int) =~= s);
    if byte_len(s) > max && s.len() > 0 {
        let init = s.drop_last();
        the_longest_front_fits(init, max);
        let n = fitting(init, max);
        assert(init.take(n) =~= s.take(n));
        if n < init.len() {
            assert(init.take(n + 1) =~= s.take(n + 1));
        } else {
            assert(s.take(n + 1) =~= s);
        }
    }
}

/// The parts around a separator give back the text, and the first of them does not reach past
/// the first place where the separator stands.
pub proof fn parts_around_give_back_the_text(s: Seq<char>, p: Seq<char>, i: int)
    requires
        first_at(s, p, i),
    ensures
        parts_around(s, p) == Some((s.take(i), s.skip(i + p.len()))),
        s == s.take(i) + p + s.skip(i + p.len()),
{
    assert(occurs_at(s, p, i));
    let k = choose|k: int| first_at(s, p, k);
    first_at_unique(s, p, k, i);
    assert(s =~= s.take(i) + s.subrange(i, i + p.len()) + s.skip(i + p.len()));
}

/// A text that stands between two others is a part of the whole.
pub proof fn what_stands_between_is_a_part(a: Seq<char>, p: Seq<char>, b: Seq<char>)
    ensures
        has_part(a + p + b, p),
{
    let s = a + p + b;
    assert(s.subrange(a.len() as int, (a.len() + p.len()) as int) =~= p);
    assert(occurs_at(s, p, a.len() as int));
}

/// Joined parts are all there: what each holds stands in the joined text.
pub proof fn every_part_is_in_the_joined_text(parts: Seq<Seq<char>>, sep: Seq<char>, i: int)
    requires
        0 <= i < parts.len(),
    ensures
        has_part(joined(parts, sep), parts[i]),
    decreases parts.len(),
{
    let t = joined(parts, sep);
    if parts.len() == 1 {
        assert(t.subrange(0, t.len() as int) =~= t);
        assert(occurs_at(t, t, 0));
    } else if i == parts.len() - 1 {
        let a = joined(parts.drop_last(), sep) + sep;
        assert(t =~= a + parts[i] + Seq::<char>::empty());
        what_stands_between_is_a_part(a, parts[i], Seq::empty());
    } else {
        let init = parts.drop_last();
        every_part_is_in_the_joined_text(init, sep, i);
        let a = joined(init, sep);
        assert(init[i] == parts[i]);
        let k = choose|k: int| occurs_at(a, parts[i], k);
        assert(t.subrange(k, k + parts[i].len()) =~= a.subrange(k, k + parts[i].len()));
        assert(occurs_at(t, parts[i], k));
    }
}

/// A part of a part is a part.
pub proof fn parts_nest(s: Seq<char>, p: Seq<char>, q: Seq<char>)
    requires
        has_part(s, p),
        has_part(p, q),
    ensures
        has_part(s, q),
{
    let i = choose|i: int| occurs_at(s, p, i);
    let j = choose|j: int| occurs_at(p, q, j);
    assert(s.subrange(i + j, i + j + q.len()) =~= s.subrange(i, i + p.len()).subrange(
        j,
        j + q.len(),
    ));
    assert(occurs_at(s, q, i + j));
}

/// The lines of a text are what stands between its breaks, each without the carriage return before
/// its break; a break at the end opens no line.
pub proof fn a_line_ends_before_its_break(s: Seq<char>, i: int)
    ensures
        ({
            let p = pieces(s, '\n');
            let l = line_seq(s);
            let n = p.len() - 1;
            &&& p.last().len() == 0 ==> l.len() == n
            &&& p.last().len() > 0 ==> l.len() == n + 1 && l[n] == p[n]
            &&& 0 <= i < n && p[i].len() > 0 && p[i].last() == '\r' ==> l[i] == p[i].drop_last()
            &&& 0 <= i < n && !(p[i].len() > 0 && p[i].last() == '\r') ==> l[i] == p[i]
        }),
{
    pieces_join_to_the_text(s, '\n');
}

/// A span is shown in milliseconds below a second, and in whole seconds where it is one.
pub proof fn a_span_is_shown_in_its_unit(ms: nat)
    ensures
        0 < ms < 1000 ==> span_text(ms) == nat_text(ms) + "ms"@,
        span_text(0) == "0ns"@,
        ms >= 1000 ==> has_prefix(span_text(ms), nat_text(ms / 1000)),
        ms >= 1000 ==> span_text(ms).len() > 0 && span_text(ms).last() == 's',
{
    reveal_strlit("s");
    if ms >= 1000 {
        let t = span_text(ms);
        let h = nat_text(ms / 1000);
        assert(t.subrange(0, h.len() as int) =~= h);
        assert(t.last() == 's');
    }
}

} // verus!
