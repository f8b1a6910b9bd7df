//! Character-level text operations with their mathematical meaning.
use vstd::prelude::*;

verus! {

broadcast use vstd::string::group_string_axioms;

/// Appends one character to a `String` (`String::push`).
#[verifier::external_body]
pub(crate) fn push_char(s: &mut String, c: char)
    ensures
        final(s)@ == old(s)@.push(c),
{
    s.push(c);
}

/// The characters of a string slice, in order.
pub fn char_vec(s: &str) -> (v: Vec<char>)
    ensures
        v@ == s@,
{
    let mut v: Vec<char> = Vec::new();
    for c in it: s.chars()
        invariant
            it.seq() == s@,
            v@ == s@.take(it.index() as int),
    {
        v.push(c);
    }
    v
}

/// Builds a `String` holding exactly the given characters.
pub fn string_of(chars: &Vec<char>, from: usize, to: usize) -> (s: String)
    requires
        from <= to <= chars@.len(),
    ensures
        s@ == chars@.subrange(from as int, to as int),
{
    let mut s = String::new();
    let mut i = from;
    while i < to
        invariant
            from <= i <= to <= chars@.len(),
            s@ == chars@.subrange(from as int, i as int),
        decreases to - i,
    {
        push_char(&mut s, chars[i]);
        assert(chars@.subrange(from as int, i + 1) == chars@.subrange(from as int, i as int).push(chars@[i as int]));
        i = i + 1;
    }
    s
}

/// Whether two strings hold the same characters.
pub fn str_eq(a: &str, b: &str) -> (r: bool)
    ensures
        r == (a@ == b@),
{
    let x = char_vec(a);
    let y = char_vec(b);
    if x.len() != y.len() {
        return false;
    }
    let mut i: usize = 0;
    while i < x.len()
        invariant
            x@ == a@,
            y@ == b@,
            x@.len() == y@.len(),
            i <= x@.len(),
            forall|j: int| 0 <= j < i ==> x@[j] == y@[j],
        decreases x.len() - i,
    {
        if x[i] != y[i] {
            return false;
        }
        i = i + 1;
    }
    assert(x@ =~= y@);
    true
}

/// `prefix` is an initial segment of `s`.
pub open spec fn has_prefix(s: Seq<char>, prefix: Seq<char>) -> bool {
    prefix.len() <= s.len() && s.take(prefix.len() as int) == prefix
}

/// Whether `s` starts with `prefix`.
pub fn starts_with(s: &str, prefix: &str) -> (r: bool)
    ensures
        r == has_prefix(s@, prefix@),
{
    let x = char_vec(s);
    let p = char_vec(prefix);
    if p.len() > x.len() {
        return false;
    }
    let mut i: usize = 0;
    while i < p.len()
        invariant
            x@ == s@,
            p@ == prefix@,
            p@.len() <= x@.len(),
            i <= p@.len(),
            forall|j: int| 0 <= j < i ==> x@[j] == p@[j],
        decreases p.len() - i,
    {
        if x[i] != p[i] {
            assert(x@.take(p@.len() as int)[i as int] != p@[i as int]);
            return false;
        }
        i = i + 1;
    }
    assert(x@.take(p@.len() as int) =~= p@);
    true
}

/// `needle` occurs in `s` starting at position `at`.
pub open spec fn occurs_at(s: Seq<char>, needle: Seq<char>, at: int) -> bool {
    0 <= at && at + needle.len() <= s.len() && s.subrange(at, at + needle.len()) == needle
}

/// `needle` occurs somewhere in `s`.
pub open spec fn occurs_in(s: Seq<char>, needle: Seq<char>) -> bool {
    exists|at: int| occurs_at(s, needle, at)
}

fn occurs_at_exec(x: &Vec<char>, n: &Vec<char>, at: usize) -> (r: bool)
    requires
        at + n@.len() <= x@.len(),
    ensures
        r == occurs_at(x@, n@, at as int),
{
    let xl = x.len();
    let mut j: usize = 0;
    while j < n.len()
        invariant
            xl == x@.len(),
            at + n@.len() <= x@.len(),
            j <= n@.len(),
            forall|k: int| 0 <= k < j ==> x@[at + k] == n@[k],
        decreases n.len() - j,
    {
        assert(at + j < xl);
        if x[at + j] != n[j] {
            assert(x@.subrange(at as int, at + n@.len())[j as int] != n@[j as int]);
            return false;
        }
        j = j + 1;
    }
    assert(x@.subrange(at as int, at + n@.len()) =~= n@);
    true
}

/// Whether `needle` occurs in `s` (`str::contains` with a string pattern).
pub fn contains(s: &str, needle: &str) -> (r: bool)
    ensures
        r == occurs_in(s@, needle@),
{
    let x = char_vec(s);
    let n = char_vec(needle);
    if n.len() > x.len() {
        assert forall|at: int| !occurs_at(s@, needle@, at) by {}
        return false;
    }
    let mut at: usize = 0;
    let last = x.len() - n.len();
    while at <= last
        invariant
            x@ == s@,
            n@ == needle@,
            n@.len() <= x@.len(),
            last == x@.len() - n@.len(),
            at <= last + 1,
            forall|k: int| 0 <= k < at ==> !occurs_at(s@, needle@, k),
        decreases last + 1 - at,
    {
        if occurs_at_exec(&x, &n, at) {
            return true;
        }
        if at == last {
            assert forall|k: int| !occurs_at(s@, needle@, k) by {
                if 0 <= k && k + needle@.len() <= s@.len() {
                    assert(k <= at);
                }
            }
            return false;
        }
        at = at + 1;
    }
    assert forall|k: int| !occurs_at(s@, needle@, k) by {
        if 0 <= k && k + needle@.len() <= s@.len() {
            assert(k < at);
        }
    }
    false
}

/// The decimal digit character for `d` (`d < 10`).
pub open spec fn digit_char(d: nat) -> char {
    if d == 0 { '0' }
    else if d == 1 { '1' }
    else if d == 2 { '2' }
    else if d == 3 { '3' }
    else if d == 4 { '4' }
    else if d == 5 { '5' }
    else if d == 6 { '6' }
    else if d == 7 { '7' }
    else if d == 8 { '8' }
    else { '9' }
}

/// Decimal notation of a natural number, without leading zeros.
pub open spec fn decimal(n: nat) -> Seq<char>
    decreases n,
{
    if n < 10 {
        seq![digit_char(n)]
    } else {
        decimal(n / 10).push(digit_char(n % 10))
    }
}

fn digit_of(d: u64) -> (c: char)
    requires
        d < 10,
    ensures
        c == digit_char(d as nat),
{
    if d == 0 { '0' }
    else if d == 1 { '1' }
    else if d == 2 { '2' }
    else if d == 3 { '3' }
    else if d == 4 { '4' }
    else if d == 5 { '5' }
    else if d == 6 { '6' }
    else if d == 7 { '7' }
    else if d == 8 { '8' }
    else { '9' }
}

/// Appends the decimal notation of `n`.
pub fn push_decimal(s: &mut String, n: u64)
    ensures
        final(s)@ == old(s)@ + decimal(n as nat),
    decreases n,
{
    if n >= 10 {
        push_decimal(s, n / 10);
    }
    push_char(s, digit_of(n % 10));
}

/// Decimal notation of `n` (`n.to_string()`).
pub fn decimal_string(n: u64) -> (s: String)
    ensures
        s@ == decimal(n as nat),
{
    let mut s = String::new();
    push_decimal(&mut s, n);
    s
}


/// Unicode `White_Space` characters (what `char::is_whitespace` accepts).
pub open spec fn is_space(c: char) -> bool {
    ('\u{9}' <= c && c <= '\u{d}') || c == ' ' || c == '\u{85}' || c == '\u{a0}'
        || c == '\u{1680}' || ('\u{2000}' <= c && c <= '\u{200a}') || c == '\u{2028}'
        || c == '\u{2029}' || c == '\u{202f}' || c == '\u{205f}' || c == '\u{3000}'
}

/// Whether `c` is Unicode white space.
pub fn is_space_char(c: char) -> (r: bool)
    ensures
        r == is_space(c),
{
    ('\u{9}' <= c && c <= '\u{d}') || c == ' ' || c == '\u{85}' || c == '\u{a0}'
        || c == '\u{1680}' || ('\u{2000}' <= c && c <= '\u{200a}') || c == '\u{2028}'
        || c == '\u{2029}' || c == '\u{202f}' || c == '\u{205f}' || c == '\u{3000}'
}

/// `s` without its leading white space.
pub open spec fn trim_start(s: Seq<char>) -> Seq<char>
    decreases s.len(),
{
    if s.len() > 0 && is_space(s[0]) {
        trim_start(s.drop_first())
    } else {
        s
    }
}

/// `s` without its trailing white space.
pub open spec fn trim_end(s: Seq<char>) -> Seq<char>
    decreases s.len(),
{
    if s.len() > 0 && is_space(s.last()) {
        trim_end(s.drop_last())
    } else {
        s
    }
}

/// `s` without leading and trailing white space (`str::trim`).
pub open spec fn trim(s: Seq<char>) -> Seq<char> {
    trim_end(trim_start(s))
}

/// Bounds of the trimmed part of `x[from..to]`.
pub fn trim_range(x: &Vec<char>, from: usize, to: usize) -> (r: (usize, usize))
    requires
        from <= to <= x@.len(),
    ensures
        from <= r.0 <= r.1 <= to,
        x@.subrange(r.0 as int, r.1 as int) == trim(x@.subrange(from as int, to as int)),
{
    let mut a = from;
    while a < to && is_space_char(x[a])
        invariant
            from <= a <= to <= x@.len(),
            trim_start(x@.subrange(from as int, to as int)) == trim_start(
                x@.subrange(a as int, to as int),
            ),
        decreases to - a,
    {
        assert(x@.subrange(a as int, to as int).drop_first() =~= x@.subrange(a + 1, to as int));
        a = a + 1;
    }
    assert(trim_start(x@.subrange(a as int, to as int)) == x@.subrange(a as int, to as int));
    let mut b = to;
    while b > a && is_space_char(x[b - 1])
        invariant
            from <= a <= b <= to <= x@.len(),
            trim_end(x@.subrange(a as int, to as int)) == trim_end(x@.subrange(a as int, b as int)),
        decreases b - a,
    {
        assert(x@.subrange(a as int, b as int).drop_last() =~= x@.subrange(a as int, b - 1));
        b = b - 1;
    }
    (a, b)
}

/// `str::trim`, as an owned string.
pub fn trimmed(s: &str) -> (r: String)
    ensures
        r@ == trim(s@),
{
    let x = char_vec(s);
    let (a, b) = trim_range(&x, 0, x.len());
    assert(x@.subrange(0, x@.len() as int) =~= x@);
    string_of(&x, a, b)
}

/// The pieces of `s` between occurrences of `sep` (`str::split` with a character):
/// every separator ends one piece and starts the next.
pub open spec fn split_on(s: Seq<char>, sep: char) -> Seq<Seq<char>>
    decreases s.len(),
{
    if s.len() == 0 {
        seq![Seq::<char>::empty()]
    } else {
        let prev = split_on(s.drop_last(), sep);
        if s.last() == sep {
            prev.push(Seq::<char>::empty())
        } else {
            prev.update(prev.len() - 1, prev.last().push(s.last()))
        }
    }
}

pub proof fn lemma_split_on_nonempty(s: Seq<char>, sep: char)
    ensures
        split_on(s, sep).len() >= 1,
    decreases s.len(),
{
    if s.len() > 0 {
        lemma_split_on_nonempty(s.drop_last(), sep);
    }
}

/// The text that a list of index ranges of `x` denotes.
pub open spec fn range_texts(x: Seq<char>, r: Seq<(usize, usize)>) -> Seq<Seq<char>> {
    r.map_values(|p: (usize, usize)| x.subrange(p.0 as int, p.1 as int))
}

/// Index ranges of the pieces of `x` between occurrences of `sep`.
pub fn split_ranges(x: &Vec<char>, sep: char) -> (r: Vec<(usize, usize)>)
    ensures
        range_texts(x@, r@) == split_on(x@, sep),
        forall|k: int| 0 <= k < r@.len() ==> #[trigger] r@[k].0 <= r@[k].1 <= x@.len(),
{
    let mut pieces: Vec<(usize, usize)> = Vec::new();
    let mut start: usize = 0;
    let mut i: usize = 0;
    assert(range_texts(x@, pieces@) =~= Seq::<Seq<char>>::empty());
    assert(x@.take(0) =~= Seq::<char>::empty());
    assert(x@.subrange(0, 0) =~= Seq::<char>::empty());
    assert(range_texts(x@, pieces@).push(x@.subrange(0, 0)) =~= split_on(x@.take(0), sep));
    while i < x.len()
        invariant
            start <= i <= x@.len(),
            forall|k: int| 0 <= k < pieces@.len() ==> #[trigger] pieces@[k].0 <= pieces@[k].1 <= x@.len(),
            range_texts(x@, pieces@).push(x@.subrange(start as int, i as int)) == split_on(
                x@.take(i as int),
                sep,
            ),
        decreases x.len() - i,
    {
        let ghost before = range_texts(x@, pieces@);
        let ghost prev = split_on(x@.take(i as int), sep);
        proof {
            assert(x@.take(i + 1).drop_last() =~= x@.take(i as int));
            assert(x@.take(i + 1).last() == x@[i as int]);
            assert(prev == before.push(x@.subrange(start as int, i as int)));
        }
        if x[i] == sep {
            let ghost old_pieces = pieces@;
            pieces.push((start, i));
            assert forall|k: int| 0 <= k < pieces@.len() implies #[trigger] pieces@[k].0 <= pieces@[k].1 <= x@.len() by {
                if k < old_pieces.len() {
                    assert(pieces@[k] == old_pieces[k]);
                }
            }
            assert(range_texts(x@, pieces@) =~= before.push(x@.subrange(start as int, i as int)));
            start = i + 1;
            assert(x@.subrange(start as int, i + 1) =~= Seq::<char>::empty());
            assert(split_on(x@.take(i + 1), sep) == prev.push(Seq::<char>::empty()));
            assert(range_texts(x@, pieces@).push(x@.subrange(start as int, i + 1)) =~= split_on(
                x@.take(i + 1),
                sep,
            ));
        } else {
            assert(x@.subrange(start as int, i + 1) =~= x@.subrange(start as int, i as int).push(
                x@[i as int],
            ));
            assert(split_on(x@.take(i + 1), sep) == prev.update(
                prev.len() - 1,
                prev.last().push(x@[i as int]),
            ));
            assert(range_texts(x@, pieces@).push(x@.subrange(start as int, i + 1)) =~= split_on(
                x@.take(i + 1),
                sep,
            ));
        }
        i = i + 1;
    }
    pieces.push((start, i));
    assert(x@.take(i as int) =~= x@);
    pieces
}

/// The non-empty entries of `lines`, each trimmed, in order.
pub open spec fn nonempty_trimmed(lines: Seq<Seq<char>>) -> Seq<Seq<char>>
    decreases lines.len(),
{
    if lines.len() == 0 {
        Seq::empty()
    } else {
        let prev = nonempty_trimmed(lines.drop_last());
        if trim(lines.last()).len() > 0 {
            prev.push(trim(lines.last()))
        } else {
            prev
        }
    }
}

/// The views of a list of strings.
pub open spec fn views(v: Seq<String>) -> Seq<Seq<char>> {
    v.map_values(|s: String| s@)
}

/// The non-blank lines of `text`, each trimmed (`text.lines().map(str::trim)` without
/// the empty ones).
pub fn nonblank_lines(text: &str) -> (r: Vec<String>)
    ensures
        views(r@) == nonempty_trimmed(split_on(text@, '\n')),
{
    let x = char_vec(text);
    let ranges = split_ranges(&x, '\n');
    let ghost pieces = split_on(x@, '\n');
    let mut out: Vec<String> = Vec::new();
    let mut k: usize = 0;
    while k < ranges.len()
        invariant
            x@ == text@,
            pieces == split_on(x@, '\n'),
            range_texts(x@, ranges@) == pieces,
            forall|j: int| 0 <= j < ranges@.len() ==> #[trigger] ranges@[j].0 <= ranges@[j].1 <= x@.len(),
            k <= ranges@.len(),
            views(out@) == nonempty_trimmed(pieces.take(k as int)),
        decreases ranges.len() - k,
    {
        let (from, to) = ranges[k];
        assert(pieces[k as int] == x@.subrange(from as int, to as int));
        assert(pieces.take(k + 1).drop_last() =~= pieces.take(k as int));
        let (a, b) = trim_range(&x, from, to);
        if a < b {
            let line = string_of(&x, a, b);
            out.push(line);
            assert(views(out@) =~= nonempty_trimmed(pieces.take(k as int)).push(line@));
        } else {
            assert(views(out@) =~= nonempty_trimmed(pieces.take(k + 1)));
        }
        k = k + 1;
    }
    assert(pieces.take(ranges@.len() as int) =~= pieces);
    out
}


/// Position of the first `c` in `s`.
pub open spec fn index_of(s: Seq<char>, c: char) -> Option<int>
    decreases s.len(),
{
    if s.len() == 0 {
        None
    } else if s[0] == c {
        Some(0)
    } else {
        match index_of(s.drop_first(), c) {
            Some(i) => Some(i + 1),
            None => None,
        }
    }
}

pub proof fn lemma_index_of_bounds(s: Seq<char>, c: char)
    ensures
        index_of(s, c) matches Some(i) ==> 0 <= i < s.len() && s[i] == c,
        index_of(s, c) is None ==> forall|k: int| 0 <= k < s.len() ==> s[k] != c,
        index_of(s, c) matches Some(i) ==> forall|k: int| 0 <= k < i ==> s[k] != c,
    decreases s.len(),
{
    if s.len() > 0 {
        lemma_index_of_bounds(s.drop_first(), c);
        if s[0] != c {
            assert forall|k: int| 1 <= k < s.len() implies s[k] == s.drop_first()[k - 1] by {}
        }
    }
}

pub proof fn lemma_index_of_first(s: Seq<char>, c: char, p: int)
    requires
        0 <= p < s.len(),
        s[p] == c,
        forall|k: int| 0 <= k < p ==> s[k] != c,
    ensures
        index_of(s, c) == Some(p),
    decreases p,
{
    if p > 0 {
        assert forall|k: int| 0 <= k < p - 1 implies s.drop_first()[k] != c by {
            assert(s[k + 1] != c);
        }
        lemma_index_of_first(s.drop_first(), c, p - 1);
    }
}

/// Position of the first `c` in `x[from..to]`, counted from `from`.
pub fn find_char(x: &Vec<char>, from: usize, to: usize, c: char) -> (r: Option<usize>)
    requires
        from <= to <= x@.len(),
    ensures
        r matches Some(i) ==> index_of(x@.subrange(from as int, to as int), c) == Some(i as int),
        r is None ==> index_of(x@.subrange(from as int, to as int), c) is None,
{
    let ghost s = x@.subrange(from as int, to as int);
    let mut i = from;
    while i < to
        invariant
            from <= i <= to <= x@.len(),
            s == x@.subrange(from as int, to as int),
            forall|k: int| from <= k < i ==> x@[k] != c,
        decreases to - i,
    {
        if x[i] == c {
            proof {
                assert(s[i - from] == c);
                assert forall|k: int| 0 <= k < i - from implies s[k] != c by {
                    assert(x@[from + k] != c);
                }
                lemma_index_of_first(s, c, i - from);
            }
            return Some(i - from);
        }
        i = i + 1;
    }
    proof {
        lemma_index_of_bounds(s, c);
        if let Some(j) = index_of(s, c) {
            assert(x@[from + j] == c);
        }
    }
    None
}

/// Whether `x[from..to]` holds exactly the characters of `lit`.
pub fn range_is(x: &Vec<char>, from: usize, to: usize, lit: &str) -> (r: bool)
    requires
        from <= to <= x@.len(),
    ensures
        r == (x@.subrange(from as int, to as int) == lit@),
{
    let l = char_vec(lit);
    if to - from != l.len() {
        return false;
    }
    let mut i: usize = 0;
    while i < l.len()
        invariant
            l@ == lit@,
            from <= to <= x@.len(),
            to - from == l@.len(),
            i <= l@.len(),
            forall|k: int| 0 <= k < i ==> x@[from + k] == l@[k],
        decreases l.len() - i,
    {
        if x[from + i] != l[i] {
            assert(x@.subrange(from as int, to as int)[i as int] != l@[i as int]);
            return false;
        }
        i = i + 1;
    }
    assert(x@.subrange(from as int, to as int) =~= l@);
    true
}


/// `s` with every occurrence of the non-empty `pat` replaced by `to`, scanning from
/// the left without overlaps (`str::replace`).
pub open spec fn replace_all(s: Seq<char>, pat: Seq<char>, to: Seq<char>) -> Seq<char>
    decreases s.len(),
{
    if s.len() == 0 || pat.len() == 0 {
        s
    } else if has_prefix(s, pat) {
        to + replace_all(s.skip(pat.len() as int), pat, to)
    } else {
        seq![s[0]] + replace_all(s.skip(1), pat, to)
    }
}

/// Appends `s` with every occurrence of `pat` replaced by `to`.
pub fn push_replaced(out: &mut String, s: &str, pat: &str, to: &str)
    requires
        pat@.len() > 0,
    ensures
        final(out)@ == old(out)@ + replace_all(s@, pat@, to@),
{
    let x = char_vec(s);
    let p = char_vec(pat);
    let mut i: usize = 0;
    assert(x@.skip(0) =~= x@);
    while i < x.len()
        invariant
            x@ == s@,
            p@ == pat@,
            p@.len() > 0,
            i <= x@.len(),
            old(out)@ + replace_all(s@, pat@, to@) == out@ + replace_all(x@.skip(i as int), pat@, to@),
        decreases x.len() - i,
    {
        let ghost rest = x@.skip(i as int);
        let hit = p.len() <= x.len() - i && occurs_at_exec(&x, &p, i);
        if hit {
            assert(rest.take(p@.len() as int) =~= x@.subrange(i as int, i + p@.len()));
            assert(has_prefix(rest, pat@));
            assert(rest.skip(p@.len() as int) =~= x@.skip(i + p@.len()));
            out.append(to);
            i = i + p.len();
        } else {
            proof {
                if has_prefix(rest, pat@) {
                    assert(rest.take(p@.len() as int) =~= x@.subrange(i as int, i + p@.len()));
                }
            }
            assert(rest.skip(1) =~= x@.skip(i + 1));
            push_char(out, x[i]);
            assert(out@ + replace_all(x@.skip(i + 1), pat@, to@) =~= old(out)@ + replace_all(s@, pat@, to@)) by {
                assert(seq![x@[i as int]] + replace_all(rest.skip(1), pat@, to@) == replace_all(rest, pat@, to@));
            }
            i = i + 1;
        }
    }
    assert(x@.skip(i as int).len() == 0);
}


/// The entries of `items` separated by `sep` (`[..].join(sep)`).
pub open spec fn joined(items: Seq<Seq<char>>, sep: Seq<char>) -> Seq<char>
    decreases items.len(),
{
    if items.len() == 0 {
        Seq::empty()
    } else if items.len() == 1 {
        items[0]
    } else {
        joined(items.drop_last(), sep) + sep + items.last()
    }
}

/// Appends the entries of `items` separated by `sep`.
pub fn push_joined(out: &mut String, items: &Vec<String>, sep: &str)
    ensures
        final(out)@ == old(out)@ + joined(views(items@), sep@),
{
    let ghost start = out@;
    let mut i: usize = 0;
    assert(views(items@).take(0) =~= Seq::<Seq<char>>::empty());
    while i < items.len()
        invariant
            i <= items@.len(),
            out@ == start + joined(views(items@).take(i as int), sep@),
        decreases items.len() - i,
    {
        let ghost v = views(items@);
        assert(v.take(i + 1).drop_last() =~= v.take(i as int));
        assert(v.take(i + 1).last() == items@[i as int]@);
        if i > 0 {
            out.append(sep);
        } else {
            assert(v.take(1) =~= seq![items@[0]@]);
        }
        out.append(items[i].as_str());
        i = i + 1;
    }
    assert(views(items@).take(i as int) =~= views(items@));
}

} // verus!
