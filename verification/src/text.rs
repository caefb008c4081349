//! Character-level text model: the views of `&str`/`String` are `Seq<char>`,
//! and every string operation the library relies on is stated here as a spec
//! function and implemented by a verified loop.
use vstd::prelude::*;
use vstd::string::*;

verus! {

/// Unicode `White_Space`, the set that `char::is_whitespace` and `str::trim` use.
pub open spec fn is_ws(c: char) -> bool {
    ||| c == '\t' || c == '\n' || c == '\x0B' || c == '\x0C' || c == '\r' || c == ' '
    ||| c == '\u{85}' || c == '\u{A0}' || c == '\u{1680}'
    ||| ('\u{2000}' <= c && c <= '\u{200A}')
    ||| c == '\u{2028}' || c == '\u{2029}' || c == '\u{202F}' || c == '\u{205F}' || c == '\u{3000}'
}

pub fn is_whitespace(c: char) -> (b: bool)
    ensures
        b == is_ws(c),
{
    c == '\t' || c == '\n' || c == '\x0B' || c == '\x0C' || c == '\r' || c == ' ' || c == '\u{85}'
        || c == '\u{A0}' || c == '\u{1680}' || ('\u{2000}' <= c && c <= '\u{200A}') || c
        == '\u{2028}' || c == '\u{2029}' || c == '\u{202F}' || c == '\u{205F}' || c == '\u{3000}'
}

/// `s` without its leading whitespace.
pub open spec fn trim_start(s: Seq<char>) -> Seq<char>
    decreases s.len(),
{
    if s.len() > 0 && is_ws(s[0]) {
        trim_start(s.drop_first())
    } else {
        s
    }
}

/// `s` without its trailing whitespace.
pub open spec fn trim_end(s: Seq<char>) -> Seq<char>
    decreases s.len(),
{
    if s.len() > 0 && is_ws(s.last()) {
        trim_end(s.drop_last())
    } else {
        s
    }
}

/// `str::trim`.
pub open spec fn trim(s: Seq<char>) -> Seq<char> {
    trim_end(trim_start(s))
}

/// `s` without any leading copies of `c`.
pub open spec fn strip_start_all(s: Seq<char>, c: char) -> Seq<char>
    decreases s.len(),
{
    if s.len() > 0 && s[0] == c {
        strip_start_all(s.drop_first(), c)
    } else {
        s
    }
}

/// `s` without any trailing copies of `c`.
pub open spec fn strip_end_all(s: Seq<char>, c: char) -> Seq<char>
    decreases s.len(),
{
    if s.len() > 0 && s.last() == c {
        strip_end_all(s.drop_last(), c)
    } else {
        s
    }
}

/// ASCII lower-casing of one character; everything else is kept.
pub open spec fn lower_char(c: char) -> char {
    if 'A' <= c && c <= 'Z' {
        ((c as u32) + 32) as char
    } else {
        c
    }
}

/// `str::to_ascii_lowercase`.
pub open spec fn lower(s: Seq<char>) -> Seq<char> {
    s.map_values(|c: char| lower_char(c))
}

/// `str::split(sep)`: the pieces between occurrences of `sep`; never empty.
pub open spec fn split<A>(s: Seq<A>, sep: A) -> Seq<Seq<A>>
    decreases s.len(),
{
    if s.len() == 0 {
        seq![Seq::<A>::empty()]
    } else {
        let rest = split(s.drop_last(), sep);
        if s.last() == sep {
            rest.push(Seq::<A>::empty())
        } else {
            rest.update(rest.len() - 1, rest.last().push(s.last()))
        }
    }
}

/// One `\r` removed from the end, if there is one.
pub open spec fn strip_cr(s: Seq<char>) -> Seq<char> {
    if s.len() > 0 && s.last() == '\r' {
        s.drop_last()
    } else {
        s
    }
}

/// `strip_cr` on every piece.
pub open spec fn strip_crs(parts: Seq<Seq<char>>) -> Seq<Seq<char>> {
    parts.map_values(|p: Seq<char>| strip_cr(p))
}

/// `str::lines`: pieces between `\n`, each followed piece losing one `\r`,
/// and no empty piece after a final `\n`.
pub open spec fn lines(s: Seq<char>) -> Seq<Seq<char>> {
    let parts = split(s, '\n');
    let init = strip_crs(parts.drop_last());
    if parts.last().len() == 0 {
        init
    } else {
        init.push(parts.last())
    }
}

pub proof fn lemma_split_nonempty<A>(s: Seq<A>, sep: A)
    ensures
        split(s, sep).len() >= 1,
    decreases s.len(),
{
    if s.len() > 0 {
        lemma_split_nonempty(s.drop_last(), sep);
    }
}

/// The characters of `s`, one per element.
pub fn chars_of(s: &str) -> (v: Vec<char>)
    ensures
        v@ == s@,
{
    let mut v: Vec<char> = Vec::new();
    for c in it: s.chars()
        invariant
            v@ == it.seq().take(it.index() as int),
    {
        v.push(c);
    }
    v
}

/// Appends one character (`String::push`).
#[verifier::external_body]
pub(crate) fn push_char(s: &mut String, c: char)
    ensures
        final(s)@ == old(s)@.push(c),
{
    s.push(c);
}

/// A string holding exactly the characters of `v`.
pub fn string_of(v: &[char]) -> (s: String)
    ensures
        s@ == v@,
{
    let mut s = String::new();
    let mut i: usize = 0;
    while i < v.len()
        invariant
            i <= v@.len(),
            s@ == v@.take(i as int),
        decreases v@.len() - i,
    {
        push_char(&mut s, v[i]);
        i += 1;
        assert(v@.take(i as int) == v@.take(i as int - 1).push(v@[i as int - 1]));
    }
    assert(v@.take(v@.len() as int) == v@);
    s
}

pub fn lower_char_exec(c: char) -> (r: char)
    ensures
        r == lower_char(c),
{
    if 'A' <= c && c <= 'Z' {
        ((c as u8) + 32) as char
    } else {
        c
    }
}

pub fn lower_vec(s: &[char]) -> (r: Vec<char>)
    ensures
        r@ == lower(s@),
{
    let mut r: Vec<char> = Vec::new();
    let mut i: usize = 0;
    while i < s.len()
        invariant
            i <= s@.len(),
            r@ == lower(s@.take(i as int)),
        decreases s@.len() - i,
    {
        r.push(lower_char_exec(s[i]));
        i += 1;
        assert(lower(s@.take(i as int)) =~= lower(s@.take(i as int - 1)).push(lower_char(s@[i as int - 1])));
    }
    assert(s@.take(s@.len() as int) == s@);
    r
}

/// Position of the first character that is not whitespace, or the length.
fn leading_ws(s: &[char]) -> (i: usize)
    ensures
        i <= s@.len(),
        trim_start(s@) == s@.subrange(i as int, s@.len() as int),
{
    let mut i: usize = 0;
    assert(s@.subrange(0, s@.len() as int) =~= s@);
    while i < s.len() && is_whitespace(s[i])
        invariant
            i <= s@.len(),
            trim_start(s@) == trim_start(s@.subrange(i as int, s@.len() as int)),
        decreases s@.len() - i,
    {
        assert(s@.subrange(i as int, s@.len() as int).drop_first() =~= s@.subrange(i + 1, s@.len() as int));
        i += 1;
    }
    i
}

/// One past the last character that is not whitespace, or zero.
fn trailing_ws_start(s: &[char]) -> (j: usize)
    ensures
        j <= s@.len(),
        trim_end(s@) == s@.subrange(0, j as int),
{
    let mut j: usize = s.len();
    assert(s@.subrange(0, j as int) =~= s@);
    while j > 0 && is_whitespace(s[j - 1])
        invariant
            j <= s@.len(),
            trim_end(s@) == trim_end(s@.subrange(0, j as int)),
        decreases j,
    {
        assert(s@.subrange(0, j as int).drop_last() =~= s@.subrange(0, j - 1));
        j -= 1;
    }
    j
}

pub fn trim_vec(s: &[char]) -> (r: Vec<char>)
    ensures
        r@ == trim(s@),
{
    let i = leading_ws(s);
    let tail = slice_from(s, i);
    let j = trailing_ws_start(tail.as_slice());
    let r = slice_range(tail.as_slice(), 0, j);
    r
}

/// `s[from..]` as a vector.
pub fn slice_from(s: &[char], from: usize) -> (r: Vec<char>)
    requires
        from <= s@.len(),
    ensures
        r@ == s@.subrange(from as int, s@.len() as int),
{
    slice_range(s, from, s.len())
}

/// `s[from..to]` as a vector.
pub fn slice_range(s: &[char], from: usize, to: usize) -> (r: Vec<char>)
    requires
        from <= to <= s@.len(),
    ensures
        r@ == s@.subrange(from as int, to as int),
{
    let mut r: Vec<char> = Vec::new();
    let mut k = from;
    while k < to
        invariant
            from <= k <= to,
            to <= s@.len(),
            r@ == s@.subrange(from as int, k as int),
        decreases to - k,
    {
        r.push(s[k]);
        k += 1;
        assert(r@ =~= s@.subrange(from as int, k as int));
    }
    r
}


/// The views of a sequence of character vectors.
pub open spec fn views(v: Seq<Vec<char>>) -> Seq<Seq<char>> {
    v.map_values(|x: Vec<char>| x@)
}

pub proof fn lemma_views_push(a: Seq<Vec<char>>, x: Vec<char>)
    ensures
        views(a.push(x)) == views(a).push(x@),
{
    assert(views(a.push(x)) =~= views(a).push(x@));
}

pub fn split_vec(s: &[char], sep: char) -> (r: Vec<Vec<char>>)
    ensures
        views(r@) == split(s@, sep),
{
    let mut pieces: Vec<Vec<char>> = Vec::new();
    let mut cur: Vec<char> = Vec::new();
    let mut i: usize = 0;
    assert(s@.take(0) =~= Seq::<char>::empty());
    assert(views(pieces@).push(cur@) =~= seq![Seq::<char>::empty()]);
    while i < s.len()
        invariant
            i <= s@.len(),
            split(s@.take(i as int), sep) == views(pieces@).push(cur@),
        decreases s@.len() - i,
    {
        let c = s[i];
        let ghost before = views(pieces@);
        let ghost cur_before = cur@;
        assert(s@.take(i + 1).drop_last() =~= s@.take(i as int));
        if c == sep {
            let done = cur;
            cur = Vec::new();
            pieces.push(done);
            assert(views(pieces@) =~= before.push(cur_before));
        } else {
            cur.push(c);
            assert(views(pieces@).push(cur@) =~= before.push(cur_before).update(
                before.len() as int,
                cur_before.push(c),
            ));
        }
        i += 1;
    }
    assert(s@.take(s@.len() as int) =~= s@);
    pieces.push(cur);
    pieces
}

pub fn lines_vec(s: &[char]) -> (r: Vec<Vec<char>>)
    ensures
        views(r@) == lines(s@),
{
    let parts = split_vec(s, '\n');
    proof {
        lemma_split_nonempty(s@, '\n');
    }
    let n = parts.len();
    let mut r: Vec<Vec<char>> = Vec::new();
    let mut k: usize = 0;
    while k + 1 < n
        invariant
            n == parts@.len(),
            n >= 1,
            k + 1 <= n,
            views(parts@) == split(s@, '\n'),
            views(r@) == strip_crs(views(parts@).drop_last().take(k as int)),
        decreases n - k,
    {
        let p = &parts[k];
        let piece = if p.len() > 0 && p[p.len() - 1] == '\r' {
            slice_range(p.as_slice(), 0, p.len() - 1)
        } else {
            let q = slice_from(p.as_slice(), 0);
            assert(q@ =~= p@);
            q
        };
        proof {
            assert(p@ == views(parts@)[k as int]);
            assert(piece@ =~= strip_cr(p@));
        }
        let ghost before = r@;
        r.push(piece);
        proof {
            lemma_views_push(before, r@.last());
        }
        k += 1;
        assert(views(r@) =~= strip_crs(views(parts@).drop_last().take(k as int)));
    }
    assert(views(parts@).drop_last().take(k as int) =~= views(parts@).drop_last());
    let last = &parts[n - 1];
    assert(last@ == views(parts@).last());
    if last.len() > 0 {
        let piece = slice_from(last.as_slice(), 0);
        assert(piece@ =~= last@);
        let ghost before = r@;
        r.push(piece);
        proof {
            lemma_views_push(before, r@.last());
        }
    }
    assert(views(r@) =~= lines(s@));
    r
}


/// Rust's `{:?}` rendering of a string: quoted, with escapes.
pub uninterp spec fn debug_text(s: Seq<char>) -> Seq<char>;

/// `format!("{:?}", s)` (std's `Debug` for `str`).
#[verifier::external_body]
pub(crate) fn debug_quoted(s: &str) -> (r: String)
    ensures
        r@ == debug_text(s@),
{
    format!("{:?}", s)
}

/// Whether `v` spells exactly the literal `lit`.
pub fn eq_lit(v: &[char], lit: &str) -> (b: bool)
    ensures
        b == (v@ == lit@),
{
    let n = lit.unicode_len();
    if n != v.len() {
        return false;
    }
    let mut i: usize = 0;
    while i < n
        invariant
            n == lit@.len(),
            n == v@.len(),
            i <= n,
            forall|j: int| 0 <= j < i ==> v@[j] == lit@[j],
        decreases n - i,
    {
        if v[i] != lit.get_char(i) {
            return false;
        }
        i += 1;
    }
    assert(v@ =~= lit@);
    true
}

/// Whether `v` begins with the literal `lit`.
pub fn starts_with_lit(v: &[char], lit: &str) -> (b: bool)
    ensures
        b == (lit@.len() <= v@.len() && v@.take(lit@.len() as int) == lit@),
{
    let n = lit.unicode_len();
    if n > v.len() {
        return false;
    }
    let mut i: usize = 0;
    while i < n
        invariant
            n == lit@.len(),
            n <= v@.len(),
            i <= n,
            forall|j: int| 0 <= j < i ==> v@[j] == lit@[j],
        decreases n - i,
    {
        if v[i] != lit.get_char(i) {
            assert(v@.take(n as int)[i as int] != lit@[i as int]);
            return false;
        }
        i += 1;
    }
    assert(v@.take(n as int) =~= lit@);
    true
}

/// Whether two character vectors are equal.
pub fn eq_chars(a: &[char], b: &[char]) -> (r: bool)
    ensures
        r == (a@ == b@),
{
    if a.len() != b.len() {
        return false;
    }
    let mut i: usize = 0;
    while i < a.len()
        invariant
            a@.len() == b@.len(),
            i <= a@.len(),
            forall|j: int| 0 <= j < i ==> a@[j] == b@[j],
        decreases a@.len() - i,
    {
        if a[i] != b[i] {
            return false;
        }
        i += 1;
    }
    assert(a@ =~= b@);
    true
}

/// `s` with every leading `c` removed (`trim_start_matches(c)`).
pub fn strip_start_all_vec(s: &[char], c: char) -> (r: Vec<char>)
    ensures
        r@ == strip_start_all(s@, c),
{
    let mut i: usize = 0;
    assert(s@.subrange(0, s@.len() as int) =~= s@);
    while i < s.len() && s[i] == c
        invariant
            i <= s@.len(),
            strip_start_all(s@, c) == strip_start_all(s@.subrange(i as int, s@.len() as int), c),
        decreases s@.len() - i,
    {
        assert(s@.subrange(i as int, s@.len() as int).drop_first() =~= s@.subrange(
            i + 1,
            s@.len() as int,
        ));
        i += 1;
    }
    slice_from(s, i)
}

/// `s` with every trailing `c` removed (`trim_end_matches(c)`).
pub fn strip_end_all_vec(s: &[char], c: char) -> (r: Vec<char>)
    ensures
        r@ == strip_end_all(s@, c),
{
    let mut j: usize = s.len();
    assert(s@.subrange(0, j as int) =~= s@);
    while j > 0 && s[j - 1] == c
        invariant
            j <= s@.len(),
            strip_end_all(s@, c) == strip_end_all(s@.subrange(0, j as int), c),
        decreases j,
    {
        assert(s@.subrange(0, j as int).drop_last() =~= s@.subrange(0, j - 1));
        j -= 1;
    }
    slice_range(s, 0, j)
}

/// A string holding `lit` followed by the characters of `v`.
pub fn lit_then(lit: &str, v: &[char]) -> (s: String)
    ensures
        s@ == lit@ + v@,
{
    let mut s = String::from_str(lit);
    let tail = string_of(v);
    s.append(tail.as_str());
    s
}



/// The first position of `c` in `s`.
pub open spec fn find_char(s: Seq<char>, c: char) -> Option<int>
    decreases s.len(),
{
    if s.len() == 0 {
        None
    } else if s[0] == c {
        Some(0)
    } else {
        match find_char(s.drop_first(), c) {
            Some(i) => Some(i + 1),
            None => None,
        }
    }
}

pub proof fn lemma_find_char(s: Seq<char>, c: char)
    ensures
        match find_char(s, c) {
            Some(i) => 0 <= i < s.len() && s[i] == c && forall|j: int| 0 <= j < i ==> s[j] != c,
            None => forall|j: int| 0 <= j < s.len() ==> s[j] != c,
        },
    decreases s.len(),
{
    if s.len() > 0 {
        lemma_find_char(s.drop_first(), c);
        if s[0] != c {
            assert forall|j: int| 0 < j < s.len() implies s[j] == s.drop_first()[j - 1] by {}
        }
    }
}

/// `s.split_once(c)`: the text before and after the first `c`.
pub fn split_once_char(s: &[char], c: char) -> (r: Option<(Vec<char>, Vec<char>)>)
    ensures
        match find_char(s@, c) {
            Some(i) => r matches Some((a, b)) && a@ == s@.take(i) && b@ == s@.skip(i + 1),
            None => r is None,
        },
{
    proof {
        lemma_find_char(s@, c);
    }
    let mut i: usize = 0;
    while i < s.len()
        invariant
            i <= s@.len(),
            forall|j: int| 0 <= j < i ==> s@[j] != c,
            match find_char(s@, c) {
                Some(k) => 0 <= k < s@.len() && s@[k] == c && forall|j: int| 0 <= j < k ==> s@[j] != c,
                None => forall|j: int| 0 <= j < s@.len() ==> s@[j] != c,
            },
        decreases s@.len() - i,
    {
        if s[i] == c {
            assert(find_char(s@, c) == Some(i as int));
            let a = slice_range(s, 0, i);
            let b = slice_from(s, i + 1);
            assert(a@ =~= s@.take(i as int));
            assert(b@ =~= s@.skip(i + 1));
            return Some((a, b));
        }
        i += 1;
    }
    None
}

/// Lexicographic order on character sequences (the order of `str`'s `Ord`).
pub open spec fn lex_lt(a: Seq<char>, b: Seq<char>) -> bool
    decreases a.len(),
{
    if a.len() == 0 {
        b.len() > 0
    } else if b.len() == 0 {
        false
    } else if a[0] != b[0] {
        a[0] < b[0]
    } else {
        lex_lt(a.drop_first(), b.drop_first())
    }
}

pub proof fn lemma_lex_irreflexive(a: Seq<char>)
    ensures
        !lex_lt(a, a),
    decreases a.len(),
{
    if a.len() > 0 {
        lemma_lex_irreflexive(a.drop_first());
    }
}

pub proof fn lemma_lex_total(a: Seq<char>, b: Seq<char>)
    ensures
        lex_lt(a, b) || a == b || lex_lt(b, a),
    decreases a.len(),
{
    if a.len() > 0 && b.len() > 0 && a[0] == b[0] {
        lemma_lex_total(a.drop_first(), b.drop_first());
        if a.drop_first() == b.drop_first() {
            assert(a =~= seq![a[0]] + a.drop_first());
            assert(b =~= seq![b[0]] + b.drop_first());
        }
    }
}

pub proof fn lemma_lex_transitive(a: Seq<char>, b: Seq<char>, c: Seq<char>)
    requires
        lex_lt(a, b),
        lex_lt(b, c),
    ensures
        lex_lt(a, c),
    decreases a.len(),
{
    if a.len() > 0 && b.len() > 0 && c.len() > 0 && a[0] == b[0] && b[0] == c[0] {
        lemma_lex_transitive(a.drop_first(), b.drop_first(), c.drop_first());
    }
}

/// Whether `a` sorts strictly before `b`.
pub fn chars_less(a: &[char], b: &[char]) -> (r: bool)
    ensures
        r == lex_lt(a@, b@),
{
    let mut i: usize = 0;
    assert(a@.skip(0) =~= a@);
    assert(b@.skip(0) =~= b@);
    while i < a.len() && i < b.len() && a[i] == b[i]
        invariant
            i <= a@.len(),
            i <= b@.len(),
            lex_lt(a@, b@) == lex_lt(a@.skip(i as int), b@.skip(i as int)),
        decreases a@.len() - i,
    {
        assert(a@.skip(i as int).drop_first() =~= a@.skip(i + 1));
        assert(b@.skip(i as int).drop_first() =~= b@.skip(i + 1));
        i += 1;
    }
    if i == a.len() {
        i < b.len()
    } else if i == b.len() {
        false
    } else {
        a[i] < b[i]
    }
}


/// Whether `a` sorts strictly before `b` (`a < b` on `str`).
pub fn str_less(a: &str, b: &str) -> (r: bool)
    ensures
        r == lex_lt(a@, b@),
{
    let av = chars_of(a);
    let bv = chars_of(b);
    chars_less(av.as_slice(), bv.as_slice())
}

/// The ASCII digit for `d` (0..=9).
pub open spec fn digit_char(d: nat) -> char {
    ((d + 48) as u32) as char
}

/// The decimal spelling of `n`, without leading zeros.
pub open spec fn decimal(n: nat) -> Seq<char>
    decreases n,
{
    if n < 10 {
        seq![digit_char(n)]
    } else {
        decimal(n / 10).push(digit_char(n % 10))
    }
}

fn digit_exec(d: u64) -> (c: char)
    requires
        d < 10,
    ensures
        c == digit_char(d as nat),
{
    ((d as u8) + 48) as char
}

/// `n.to_string()` for an unsigned number.
pub fn decimal_string(n: u64) -> (s: String)
    ensures
        s@ == decimal(n as nat),
    decreases n,
{
    if n < 10 {
        let mut s = String::new();
        push_char(&mut s, digit_exec(n));
        s
    } else {
        let mut s = decimal_string(n / 10);
        push_char(&mut s, digit_exec(n % 10));
        s
    }
}


/// `str::split_whitespace`: the maximal runs of non-whitespace characters.
pub open spec fn words(s: Seq<char>) -> Seq<Seq<char>>
    decreases s.len(),
{
    if s.len() == 0 {
        Seq::empty()
    } else {
        let w = words(s.drop_last());
        let c = s.last();
        if is_ws(c) {
            w
        } else if s.len() >= 2 && !is_ws(s[s.len() - 2]) {
            w.update(w.len() - 1, w.last().push(c))
        } else {
            w.push(seq![c])
        }
    }
}

/// A prefix that ends in a non-whitespace character has a last word.
pub proof fn lemma_words_nonempty(s: Seq<char>)
    requires
        s.len() > 0,
        !is_ws(s.last()),
    ensures
        words(s).len() > 0,
    decreases s.len(),
{
    if s.len() >= 2 && !is_ws(s[s.len() - 2]) {
        lemma_words_nonempty(s.drop_last());
    }
}

pub fn words_vec(s: &[char]) -> (r: Vec<Vec<char>>)
    ensures
        views(r@) == words(s@),
{
    let mut r: Vec<Vec<char>> = Vec::new();
    let mut i: usize = 0;
    assert(s@.take(0) =~= Seq::<char>::empty());
    while i < s.len()
        invariant
            i <= s@.len(),
            views(r@) == words(s@.take(i as int)),
        decreases s@.len() - i,
    {
        let c = s[i];
        let ghost pre = s@.take(i as int);
        assert(s@.take(i + 1).drop_last() =~= pre);
        assert(s@.take(i + 1).last() == c);
        if is_whitespace(c) {
        } else if i >= 1 && !is_whitespace(s[i - 1]) {
            assert(s@.take(i + 1)[i - 1] == s@[i - 1]);
            assert(pre.last() == s@[i - 1]);
            proof {
                lemma_words_nonempty(pre);
            }
            let ghost before = r@;
            let k = r.len() - 1;
            let mut last = r.pop().unwrap();
            last.push(c);
            r.push(last);
            assert(views(r@) =~= views(before).update(k as int, views(before)[k as int].push(c)));
        } else {
            let ghost before = r@;
            let mut w: Vec<char> = Vec::new();
            w.push(c);
            r.push(w);
            proof {
                lemma_views_push(before, r@.last());
            }
            assert(seq![c] =~= r@.last()@);
        }
        i += 1;
    }
    assert(s@.take(i as int) =~= s@);
    r
}

/// The value of a string of decimal digits.
pub open spec fn decimal_value(s: Seq<char>) -> int
    decreases s.len(),
{
    if s.len() == 0 {
        0
    } else {
        decimal_value(s.drop_last()) * 10 + (s.last() as int - '0' as int)
    }
}

pub open spec fn all_digits(s: Seq<char>) -> bool {
    forall|i: int| 0 <= i < s.len() ==> '0' <= #[trigger] s[i] && s[i] <= '9'
}

/// `str::parse::<u64>()`: an optional `+`, at least one decimal digit, and a
/// value that fits.
pub open spec fn parse_u64(s: Seq<char>) -> Option<u64> {
    let d = if s.len() > 0 && s[0] == '+' { s.drop_first() } else { s };
    if d.len() > 0 && all_digits(d) && decimal_value(d) <= u64::MAX {
        Some(decimal_value(d) as u64)
    } else {
        None
    }
}

proof fn lemma_decimal_value_nonneg(s: Seq<char>)
    requires
        all_digits(s),
    ensures
        decimal_value(s) >= 0,
    decreases s.len(),
{
    if s.len() > 0 {
        assert(all_digits(s.drop_last())) by {
            assert forall|j: int| 0 <= j < s.drop_last().len() implies '0' <= #[trigger] s.drop_last()[j]
                && s.drop_last()[j] <= '9' by {
                assert(s.drop_last()[j] == s[j]);
            }
        }
        lemma_decimal_value_nonneg(s.drop_last());
    }
}

pub fn parse_u64_vec(s: &[char]) -> (r: Option<u64>)
    ensures
        r == parse_u64(s@),
{
    let start: usize = if s.len() > 0 && s[0] == '+' { 1 } else { 0 };
    let d = slice_from(s, start);
    assert(d@ =~= (if s@.len() > 0 && s@[0] == '+' { s@.drop_first() } else { s@ }));
    if d.len() == 0 {
        return None;
    }
    let mut acc: u64 = 0;
    let mut over = false;
    let mut i: usize = 0;
    while i < d.len()
        invariant
            i <= d@.len(),
            d@.len() > 0,
            d@ == (if s@.len() > 0 && s@[0] == '+' { s@.drop_first() } else { s@ }),
            all_digits(d@.take(i as int)),
            over ==> decimal_value(d@.take(i as int)) > u64::MAX,
            !over ==> acc as int == decimal_value(d@.take(i as int)),
        decreases d@.len() - i,
    {
        assert(d@.take(i + 1).drop_last() =~= d@.take(i as int));
        let c = d[i];
        if !('0' <= c && c <= '9') {
            assert(!all_digits(d@));
            return None;
        }
        proof {
            lemma_decimal_value_nonneg(d@.take(i as int));
        }
        let v = (c as u64) - ('0' as u64);
        if !over {
            if acc > (u64::MAX - v) / 10 {
                over = true;
            } else {
                acc = acc * 10 + v;
            }
        }
        i += 1;
        assert forall|j: int| 0 <= j < i implies '0' <= #[trigger] d@.take(i as int)[j] && d@.take(
            i as int,
        )[j] <= '9' by {
            if j < i - 1 {
                assert(d@.take(i as int)[j] == d@.take(i - 1)[j]);
            }
        }
    }
    assert(d@.take(i as int) =~= d@);
    if over {
        None
    } else {
        Some(acc)
    }
}

/// The last position where `pat` starts in `s`.
pub open spec fn last_match(s: Seq<char>, pat: Seq<char>) -> Option<int>
    decreases s.len(),
{
    if s.len() < pat.len() {
        None
    } else if s.skip(s.len() - pat.len()) == pat {
        Some(s.len() - pat.len())
    } else if s.len() == 0 {
        None
    } else {
        last_match(s.drop_last(), pat)
    }
}

/// `s.rsplit_once(pat)`: the text after the last occurrence of `pat`.
pub fn after_last(s: &[char], pat: &[char]) -> (r: Option<Vec<char>>)
    ensures
        match last_match(s@, pat@) {
            Some(i) => r matches Some(v) && v@ == s@.skip(i + pat@.len()),
            None => r is None,
        },
{
    let n = s.len();
    let m = pat.len();
    if m > n {
        return None;
    }
    let mut end: usize = n;
    assert(s@.take(n as int) =~= s@);
    while end >= m
        invariant
            m == pat@.len(),
            n == s@.len(),
            end <= n,
            m <= n,
            last_match(s@, pat@) == last_match(s@.take(end as int), pat@),
        decreases end,
    {
        let ghost pre = s@.take(end as int);
        let start = end - m;
        let cand = slice_range(s, start, end);
        assert(cand@ =~= pre.skip(pre.len() - m));
        if eq_chars(cand.as_slice(), pat) {
            assert(s@.skip(start + m) =~= s@.skip(start as int + pat@.len()));
            return Some(slice_from(s, end));
        }
        if end == 0 {
            assert(pre.len() == 0);
            assert(last_match(pre, pat@) is None) by {
                assert(m == 0 ==> pre.skip(0) =~= pat@);
            }
            return None;
        }
        assert(pre.drop_last() =~= s@.take(end - 1));
        end -= 1;
    }
    assert(s@.take(end as int).len() < m);
    None
}

/// `parts.join(sep)`.
pub open spec fn join(parts: Seq<Seq<char>>, sep: Seq<char>) -> Seq<char>
    decreases parts.len(),
{
    if parts.len() == 0 {
        Seq::empty()
    } else if parts.len() == 1 {
        parts[0]
    } else {
        join(parts.drop_last(), sep) + sep + parts.last()
    }
}

pub open spec fn string_views(v: Seq<String>) -> Seq<Seq<char>> {
    v.map_values(|x: String| x@)
}

/// `parts.join(sep)` for strings.
pub fn join_strings(parts: &[String], sep: &str) -> (r: String)
    ensures
        r@ == join(string_views(parts@), sep@),
{
    let mut r = String::new();
    let mut i: usize = 0;
    while i < parts.len()
        invariant
            i <= parts@.len(),
            r@ == join(string_views(parts@).take(i as int), sep@),
        decreases parts@.len() - i,
    {
        let ghost pre = string_views(parts@).take(i as int + 1);
        assert(pre.drop_last() =~= string_views(parts@).take(i as int));
        if i > 0 {
            r.append(sep);
        } else {
            assert(r@ =~= Seq::<char>::empty());
        }
        r.append(parts[i].as_str());
        i += 1;
    }
    assert(string_views(parts@).take(i as int) =~= string_views(parts@));
    r
}

/// The UTF-8 encoding of one character.
pub open spec fn utf8_char(c: char) -> Seq<u8> {
    let n = c as u32 as int;
    if n < 0x80 {
        seq![n as u8]
    } else if n < 0x800 {
        seq![(0xC0 + n / 64) as u8, (0x80 + n % 64) as u8]
    } else if n < 0x10000 {
        seq![(0xE0 + n / 4096) as u8, (0x80 + (n / 64) % 64) as u8, (0x80 + n % 64) as u8]
    } else {
        seq![
            (0xF0 + n / 262144) as u8,
            (0x80 + (n / 4096) % 64) as u8,
            (0x80 + (n / 64) % 64) as u8,
            (0x80 + n % 64) as u8,
        ]
    }
}

/// The UTF-8 encoding of a text (the bytes `str::as_bytes` gives).
pub open spec fn utf8(s: Seq<char>) -> Seq<u8>
    decreases s.len(),
{
    if s.len() == 0 {
        Seq::empty()
    } else {
        utf8(s.drop_last()) + utf8_char(s.last())
    }
}

fn push_utf8(out: &mut Vec<u8>, c: char)
    ensures
        final(out)@ == old(out)@ + utf8_char(c),
{
    let n: u32 = c as u32;
    assert(n <= 0x10FFFF);
    if n < 0x80 {
        out.push(n as u8);
    } else if n < 0x800 {
        out.push((0xC0 + n / 64) as u8);
        out.push((0x80 + n % 64) as u8);
    } else if n < 0x10000 {
        out.push((0xE0 + n / 4096) as u8);
        out.push((0x80 + (n / 64) % 64) as u8);
        out.push((0x80 + n % 64) as u8);
    } else {
        out.push((0xF0 + n / 262144) as u8);
        out.push((0x80 + (n / 4096) % 64) as u8);
        out.push((0x80 + (n / 64) % 64) as u8);
        out.push((0x80 + n % 64) as u8);
    }
    assert(final(out)@ =~= old(out)@ + utf8_char(c));
}

/// The UTF-8 bytes of a text.
pub fn utf8_of(s: &[char]) -> (r: Vec<u8>)
    ensures
        r@ == utf8(s@),
{
    let mut r: Vec<u8> = Vec::new();
    let mut i: usize = 0;
    while i < s.len()
        invariant
            i <= s@.len(),
            r@ == utf8(s@.take(i as int)),
        decreases s@.len() - i,
    {
        assert(s@.take(i + 1).drop_last() =~= s@.take(i as int));
        push_utf8(&mut r, s[i]);
        i += 1;
    }
    assert(s@.take(i as int) =~= s@);
    r
}

/// The views of a sequence of byte vectors.
pub open spec fn byte_views(v: Seq<Vec<u8>>) -> Seq<Seq<u8>> {
    v.map_values(|x: Vec<u8>| x@)
}

/// `bytes.split(|b| *b == sep)`.
pub fn split_bytes(s: &[u8], sep: u8) -> (r: Vec<Vec<u8>>)
    ensures
        byte_views(r@) == split(s@, sep),
{
    let mut pieces: Vec<Vec<u8>> = Vec::new();
    let mut cur: Vec<u8> = Vec::new();
    let mut i: usize = 0;
    assert(s@.take(0) =~= Seq::<u8>::empty());
    assert(byte_views(pieces@).push(cur@) =~= seq![Seq::<u8>::empty()]);
    while i < s.len()
        invariant
            i <= s@.len(),
            split(s@.take(i as int), sep) == byte_views(pieces@).push(cur@),
        decreases s@.len() - i,
    {
        let c = s[i];
        let ghost before = byte_views(pieces@);
        let ghost cur_before = cur@;
        assert(s@.take(i + 1).drop_last() =~= s@.take(i as int));
        if c == sep {
            let done = cur;
            cur = Vec::new();
            pieces.push(done);
            assert(byte_views(pieces@) =~= before.push(cur_before));
        } else {
            cur.push(c);
            assert(byte_views(pieces@).push(cur@) =~= before.push(cur_before).update(
                before.len() as int,
                cur_before.push(c),
            ));
        }
        i += 1;
    }
    assert(s@.take(s@.len() as int) =~= s@);
    let ghost before = byte_views(pieces@);
    pieces.push(cur);
    assert(byte_views(pieces@) =~= before.push(pieces@.last()@));
    pieces
}

/// Whether two byte slices are equal.
pub fn eq_bytes(a: &[u8], b: &[u8]) -> (r: bool)
    ensures
        r == (a@ == b@),
{
    if a.len() != b.len() {
        return false;
    }
    let mut i: usize = 0;
    while i < a.len()
        invariant
            a@.len() == b@.len(),
            i <= a@.len(),
            forall|j: int| 0 <= j < i ==> a@[j] == b@[j],
        decreases a@.len() - i,
    {
        if a[i] != b[i] {
            return false;
        }
        i += 1;
    }
    assert(a@ =~= b@);
    true
}

/// `str::parse::<i32>()`: an optional sign, at least one decimal digit, and
/// a value in range.
pub open spec fn parse_i32(s: Seq<char>) -> Option<i32> {
    if s.len() > 0 && s[0] == '-' {
        let d = s.drop_first();
        if d.len() > 0 && all_digits(d) && decimal_value(d) <= 0x8000_0000 {
            Some((-decimal_value(d)) as i32)
        } else {
            None
        }
    } else {
        let d = if s.len() > 0 && s[0] == '+' { s.drop_first() } else { s };
        if d.len() > 0 && all_digits(d) && decimal_value(d) <= 0x7fff_ffff {
            Some(decimal_value(d) as i32)
        } else {
            None
        }
    }
}

pub fn parse_i32_vec(s: &[char]) -> (r: Option<i32>)
    ensures
        r == parse_i32(s@),
{
    if s.len() > 0 && s[0] == '-' {
        let d = slice_from(s, 1);
        assert(d@ =~= s@.drop_first());
        if d.len() > 0 && d[0] == '+' {
            assert(!all_digits(d@)) by {
                assert(d@[0] == '+');
            }
            return None;
        }
        match parse_u64_vec(d.as_slice()) {
            Some(v) => {
                proof {
                    lemma_decimal_value_nonneg(d@);
                }
                if v <= 0x8000_0000 {
                    let w: i64 = 0 - (v as i64);
                    Some(w as i32)
                } else {
                    None
                }
            },
            None => None,
        }
    } else {
        match parse_u64_vec(s) {
            Some(v) => {
                proof {
                    let d = if s@.len() > 0 && s@[0] == '+' { s@.drop_first() } else { s@ };
                    lemma_decimal_value_nonneg(d);
                }
                if v <= 0x7fff_ffff {
                    Some(v as i32)
                } else {
                    None
                }
            },
            None => None,
        }
    }
}

/// Whether `pat` occurs in `s` (`str::contains`).
pub open spec fn contains_text(s: Seq<char>, pat: Seq<char>) -> bool {
    exists|i: int| 0 <= i && i + pat.len() <= s.len() && #[trigger] s.subrange(i, i + pat.len()) == pat
}

pub fn contains_lit(s: &[char], lit: &str) -> (b: bool)
    ensures
        b == contains_text(s@, lit@),
{
    let p = chars_of(lit);
    let m = p.len();
    if m > s.len() {
        return false;
    }
    let last = s.len() - m;
    let mut i: usize = 0;
    while i <= last
        invariant
            m == p@.len(),
            p@ == lit@,
            m <= s@.len(),
            last == s@.len() - m,
            s@.len() <= usize::MAX,
            i <= last + 1,
            forall|j: int| 0 <= j < i ==> #[trigger] s@.subrange(j, j + m) != lit@,
        decreases s@.len() + 1 - i,
    {
        let cand = slice_range(s, i, i + m);
        if eq_chars(cand.as_slice(), p.as_slice()) {
            return true;
        }
        if i == last {
            assert forall|j: int| 0 <= j && j + lit@.len() <= s@.len() implies #[trigger] s@.subrange(j, j + lit@.len()) != lit@ by {
                assert(j <= i);
            }
            return false;
        }
        i += 1;
    }
    assert forall|j: int| 0 <= j && j + lit@.len() <= s@.len() implies #[trigger] s@.subrange(j, j + lit@.len()) != lit@ by {
        assert(j < i);
    }
    false
}

/// Whether `s` ends with `pat`.
pub open spec fn ends_with(s: Seq<char>, pat: Seq<char>) -> bool {
    pat.len() <= s.len() && s.skip(s.len() - pat.len()) == pat
}

/// `s` with every trailing copy of a non-empty `pat` removed
/// (`trim_end_matches(pat)`).
pub open spec fn strip_suffix_all(s: Seq<char>, pat: Seq<char>) -> Seq<char>
    decreases s.len(),
{
    if pat.len() > 0 && ends_with(s, pat) {
        strip_suffix_all(s.take(s.len() - pat.len()), pat)
    } else {
        s
    }
}

pub fn strip_suffix_all_vec(s: &[char], pat: &str) -> (r: Vec<char>)
    requires
        pat@.len() > 0,
    ensures
        r@ == strip_suffix_all(s@, pat@),
{
    let p = chars_of(pat);
    let m = p.len();
    let mut end: usize = s.len();
    assert(s@.take(end as int) =~= s@);
    loop
        invariant
            m == p@.len(),
            p@ == pat@,
            m > 0,
            end <= s@.len(),
            strip_suffix_all(s@, pat@) == strip_suffix_all(s@.take(end as int), pat@),
        decreases end,
    {
        let ghost cur = s@.take(end as int);
        if end < m {
            return slice_range(s, 0, end);
        }
        let tail = slice_range(s, end - m, end);
        assert(tail@ =~= cur.skip(cur.len() - m));
        if !eq_chars(tail.as_slice(), p.as_slice()) {
            return slice_range(s, 0, end);
        }
        assert(cur.take(cur.len() - m) =~= s@.take(end - m));
        end = end - m;
    }
}

/// `s` with every `from` replaced by `to`.
pub open spec fn replace_char(s: Seq<char>, from: char, to: char) -> Seq<char> {
    s.map_values(|c: char| if c == from { to } else { c })
}

pub fn replace_char_vec(s: &[char], from: char, to: char) -> (r: Vec<char>)
    ensures
        r@ == replace_char(s@, from, to),
{
    let mut r: Vec<char> = Vec::new();
    let mut i: usize = 0;
    while i < s.len()
        invariant
            i <= s@.len(),
            r@ == replace_char(s@.take(i as int), from, to),
        decreases s@.len() - i,
    {
        let c = s[i];
        r.push(if c == from { to } else { c });
        i += 1;
        assert(r@ =~= replace_char(s@.take(i as int), from, to));
    }
    assert(s@.take(i as int) =~= s@);
    r
}

/// A UTF-8 continuation byte.
pub open spec fn is_cont(b: u8) -> bool {
    0x80 <= b && b < 0xC0
}

proof fn lemma_utf8_char_shape(c: char)
    ensures
        1 <= utf8_char(c).len() <= 4,
        !is_cont(utf8_char(c)[0]),
        forall|k: int| 1 <= k < utf8_char(c).len() ==> is_cont(#[trigger] utf8_char(c)[k]),
{
}

#[verifier::spinoff_prover]
proof fn lemma_utf8_char_injective(a: char, b: char)
    requires
        utf8_char(a) == utf8_char(b),
    ensures
        a == b,
{
    let n = a as u32 as int;
    let m = b as u32 as int;
    let e = utf8_char(a);
    assert(e.len() == utf8_char(b).len());
    assert(e[0] == utf8_char(b)[0]);
    if e.len() >= 2 {
        assert(e[1] == utf8_char(b)[1]);
    }
    if e.len() >= 3 {
        assert(e[2] == utf8_char(b)[2]);
    }
    if e.len() >= 4 {
        assert(e[3] == utf8_char(b)[3]);
    }
    assert(n < 0x80 ==> m < 0x80 && n == m);
    assert(0x80 <= n < 0x800 ==> 0x80 <= m < 0x800 && n / 64 == m / 64 && n % 64 == m % 64);
    assert(0x800 <= n < 0x10000 ==> 0x800 <= m < 0x10000 && n / 4096 == m / 4096 && (n / 64) % 64
        == (m / 64) % 64 && n % 64 == m % 64);
    assert(0x10000 <= n ==> 0x10000 <= m && n / 262144 == m / 262144 && (n / 4096) % 64 == (m
        / 4096) % 64 && (n / 64) % 64 == (m / 64) % 64 && n % 64 == m % 64);
    assert(n == m) by (nonlinear_arith)
        requires
            0 <= n <= 0x10FFFF,
            0 <= m <= 0x10FFFF,
            n < 0x80 ==> m < 0x80 && n == m,
            0x80 <= n < 0x800 ==> 0x80 <= m < 0x800 && n / 64 == m / 64 && n % 64 == m % 64,
            0x800 <= n < 0x10000 ==> 0x800 <= m < 0x10000 && n / 4096 == m / 4096 && (n / 64) % 64
                == (m / 64) % 64 && n % 64 == m % 64,
            0x10000 <= n ==> 0x10000 <= m && n / 262144 == m / 262144 && (n / 4096) % 64 == (m
                / 4096) % 64 && (n / 64) % 64 == (m / 64) % 64 && n % 64 == m % 64,
    ;
}

proof fn lemma_utf8_len(s: Seq<char>)
    ensures
        utf8(s).len() >= s.len(),
    decreases s.len(),
{
    if s.len() > 0 {
        lemma_utf8_len(s.drop_last());
        lemma_utf8_char_shape(s.last());
    }
}

/// Different texts have different UTF-8 encodings.
pub proof fn lemma_utf8_injective(a: Seq<char>, b: Seq<char>)
    requires
        utf8(a) == utf8(b),
    ensures
        a == b,
    decreases a.len() + b.len(),
{
    if a.len() == 0 || b.len() == 0 {
        lemma_utf8_len(a);
        lemma_utf8_len(b);
        assert(a.len() == 0 && b.len() == 0);
        assert(a =~= b);
    } else {
        let x = utf8(a.drop_last());
        let y = utf8(b.drop_last());
        let ea = utf8_char(a.last());
        let eb = utf8_char(b.last());
        lemma_utf8_char_shape(a.last());
        lemma_utf8_char_shape(b.last());
        let whole = utf8(a);
        assert(whole == x + ea);
        assert(whole == y + eb);
        let len = whole.len();
        if ea.len() < eb.len() {
            let p = len - ea.len();
            assert(whole[p] == ea[0]);
            assert(whole[p] == eb[p - (len - eb.len())]);
            assert(false);
        }
        if eb.len() < ea.len() {
            let p = len - eb.len();
            assert(whole[p] == eb[0]);
            assert(whole[p] == ea[p - (len - ea.len())]);
            assert(false);
        }
        assert(ea =~= whole.skip(len - ea.len()));
        assert(eb =~= whole.skip(len - eb.len()));
        lemma_utf8_char_injective(a.last(), b.last());
        assert(x =~= whole.take(len - ea.len()));
        assert(y =~= whole.take(len - eb.len()));
        lemma_utf8_injective(a.drop_last(), b.drop_last());
        assert(a =~= a.drop_last().push(a.last()));
        assert(b =~= b.drop_last().push(b.last()));
    }
}

/// `Path::new(base).join(name)`, as text: an absolute `name` replaces the
/// base; otherwise a `/` separates them unless the base is empty or already
/// ends in one.
pub open spec fn join_path(base: Seq<char>, name: Seq<char>) -> Seq<char> {
    if name.len() > 0 && name[0] == '/' {
        name
    } else if base.len() == 0 {
        name
    } else if base.last() == '/' {
        base + name
    } else {
        base + "/"@ + name
    }
}

pub fn join_path_string(base: &str, name: &str) -> (r: String)
    ensures
        r@ == join_path(base@, name@),
{
    let n = chars_of(name);
    if n.len() > 0 && n[0] == '/' {
        return String::from_str(name);
    }
    let b = chars_of(base);
    let mut r = String::from_str(base);
    if b.len() > 0 && b[b.len() - 1] != '/' {
        r.append("/");
    }
    r.append(name);
    r
}

/// Whether a path is absolute (it starts at the root).
pub open spec fn is_absolute(p: Seq<char>) -> bool {
    p.len() > 0 && p[0] == '/'
}

} // verus!
