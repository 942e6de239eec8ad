//! Text primitives over `Seq<char>`, the model of every string in this crate.

use vstd::prelude::*;
use vstd::utf8::is_ascii_chars;

verus! {

broadcast use vstd::string::group_string_axioms;

/// The Unicode `White_Space` property, which `char::is_whitespace` tests.
pub open spec fn is_space(c: char) -> bool {
    let u = c as u32;
    ||| 0x9 <= u <= 0xd
    ||| u == 0x20
    ||| u == 0x85
    ||| u == 0xa0
    ||| u == 0x1680
    ||| 0x2000 <= u <= 0x200a
    ||| u == 0x2028
    ||| u == 0x2029
    ||| u == 0x202f
    ||| u == 0x205f
    ||| u == 0x3000
}

pub fn is_space_char(c: char) -> (b: bool)
    ensures
        b == is_space(c),
{
    let u = c as u32;
    (0x9 <= u && u <= 0xd) || u == 0x20 || u == 0x85 || u == 0xa0 || u == 0x1680 || (0x2000 <= u
        && u <= 0x200a) || u == 0x2028 || u == 0x2029 || u == 0x202f || u == 0x205f || u == 0x3000
}

/// The characters of `s`, in order.
pub fn to_chars(s: &str) -> (v: Vec<char>)
    ensures
        v@ == s@,
{
    let mut v: Vec<char> = Vec::new();
    for c in it: s.chars()
        invariant
            it.seq() == s@,
            v@ == s@.take(it.index() as int),
    {
        v.push(c);
    }
    v
}

/// `String` from characters: `FromIterator<char>` for `String` appends each
/// character in turn, so the result holds exactly the given characters.
#[verifier::external_body]
pub(crate) fn string_from_chars(v: &[char]) -> (s: String)
    ensures
        s@ == v@,
{
    v.iter().collect()
}


/// The views of a sequence of character vectors.
pub open spec fn views(v: Seq<Vec<char>>) -> Seq<Seq<char>> {
    v.map_values(|x: Vec<char>| x@)
}

/// A line without the carriage return of a `\r\n` ending.
pub open spec fn strip_cr(l: Seq<char>) -> Seq<char> {
    if l.len() > 0 && l.last() == '\r' {
        l.drop_last()
    } else {
        l
    }
}

/// Reading `s` left to right: the lines ended by `\n` so far, and the
/// characters after the last `\n`.
pub open spec fn lines_state(s: Seq<char>) -> (Seq<Seq<char>>, Seq<char>)
    decreases s.len(),
{
    if s.len() == 0 {
        (seq![], seq![])
    } else {
        let (done, cur) = lines_state(s.drop_last());
        if s.last() == '\n' {
            (done.push(strip_cr(cur)), seq![])
        } else {
            (done, cur.push(s.last()))
        }
    }
}

/// `str::lines`: the text split at `\n` and `\r\n` endings; the final
/// ending is optional.
pub open spec fn lines(s: Seq<char>) -> Seq<Seq<char>> {
    let (done, cur) = lines_state(s);
    if cur.len() > 0 {
        done.push(cur)
    } else {
        done
    }
}

/// Reading `s` left to right: the words completed so far, and the word
/// being read.
pub open spec fn words_state(s: Seq<char>) -> (Seq<Seq<char>>, Seq<char>)
    decreases s.len(),
{
    if s.len() == 0 {
        (seq![], seq![])
    } else {
        let (done, cur) = words_state(s.drop_last());
        if is_space(s.last()) {
            if cur.len() > 0 {
                (done.push(cur), seq![])
            } else {
                (done, seq![])
            }
        } else {
            (done, cur.push(s.last()))
        }
    }
}

/// `str::split_whitespace`: the maximal runs of non-whitespace characters.
pub open spec fn words(s: Seq<char>) -> Seq<Seq<char>> {
    let (done, cur) = words_state(s);
    if cur.len() > 0 {
        done.push(cur)
    } else {
        done
    }
}

/// `s` without its leading whitespace.
pub open spec fn trim_start(s: Seq<char>) -> Seq<char>
    decreases s.len(),
{
    if s.len() > 0 && is_space(s[0]) {
        trim_start(s.drop_first())
    } else {
        s
    }
}

/// `s` without its trailing whitespace.
pub open spec fn trim_end(s: Seq<char>) -> Seq<char>
    decreases s.len(),
{
    if s.len() > 0 && is_space(s.last()) {
        trim_end(s.drop_last())
    } else {
        s
    }
}

/// `str::trim`.
pub open spec fn trim(s: Seq<char>) -> Seq<char> {
    trim_end(trim_start(s))
}

/// The lines of `s`.
pub fn split_lines(s: &Vec<char>) -> (r: Vec<Vec<char>>)
    ensures
        views(r@) == lines(s@),
{
    let mut done: Vec<Vec<char>> = Vec::new();
    let mut cur: Vec<char> = Vec::new();
    let mut i: usize = 0;
    while i < s.len()
        invariant
            i <= s.len(),
            (views(done@), cur@) == lines_state(s@.take(i as int)),
        decreases s.len() - i,
    {
        let c = s[i];
        proof {
            assert(s@.take(i + 1).drop_last() =~= s@.take(i as int));
        }
        if c == '\n' {
            let ghost old_done = done@;
            let ghost old_cur = cur@;
            if cur.len() > 0 && cur[cur.len() - 1] == '\r' {
                cur.pop();
            }
            done.push(cur);
            cur = Vec::new();
            proof {
                assert(views(done@) =~= views(old_done).push(strip_cr(old_cur)));
            }
        } else {
            cur.push(c);
        }
        i = i + 1;
    }
    proof {
        assert(s@.take(s.len() as int) =~= s@);
    }
    if cur.len() > 0 {
        let ghost old_done = done@;
        done.push(cur);
        proof {
            assert(views(done@) =~= views(old_done).push(cur@));
        }
    }
    done
}

/// The words of `s`.
pub fn split_words(s: &Vec<char>) -> (r: Vec<Vec<char>>)
    ensures
        views(r@) == words(s@),
{
    let mut done: Vec<Vec<char>> = Vec::new();
    let mut cur: Vec<char> = Vec::new();
    let mut i: usize = 0;
    while i < s.len()
        invariant
            i <= s.len(),
            (views(done@), cur@) == words_state(s@.take(i as int)),
        decreases s.len() - i,
    {
        let c = s[i];
        proof {
            assert(s@.take(i + 1).drop_last() =~= s@.take(i as int));
        }
        if is_space_char(c) {
            if cur.len() > 0 {
                let ghost old_done = done@;
                let ghost old_cur = cur@;
                done.push(cur);
                cur = Vec::new();
                proof {
                    assert(views(done@) =~= views(old_done).push(old_cur));
                }
            }
        } else {
            cur.push(c);
        }
        i = i + 1;
    }
    proof {
        assert(s@.take(s.len() as int) =~= s@);
    }
    if cur.len() > 0 {
        let ghost old_done = done@;
        done.push(cur);
        proof {
            assert(views(done@) =~= views(old_done).push(cur@));
        }
    }
    done
}

/// `s` without leading and trailing whitespace.
pub fn trimmed(s: &Vec<char>) -> (r: Vec<char>)
    ensures
        r@ == trim(s@),
{
    let mut a: usize = 0;
    proof {
        assert(s@.skip(0) =~= s@);
    }
    while a < s.len() && is_space_char(s[a])
        invariant
            a <= s.len(),
            trim_start(s@) == trim_start(s@.skip(a as int)),
        decreases s.len() - a,
    {
        proof {
            assert(s@.skip(a as int).drop_first() =~= s@.skip(a + 1));
        }
        a = a + 1;
    }
    let mut b: usize = s.len();
    let ghost t = s@.skip(a as int);
    proof {
        assert(t.take(t.len() as int) =~= t);
    }
    while b > a && is_space_char(s[b - 1])
        invariant
            a <= b <= s.len(),
            t == s@.skip(a as int),
            trim_end(t) == trim_end(t.take(b - a)),
        decreases b,
    {
        proof {
            assert(t.take(b - a).drop_last() =~= t.take(b - 1 - a));
        }
        b = b - 1;
    }
    let mut r: Vec<char> = Vec::new();
    let mut k: usize = a;
    while k < b
        invariant
            a <= k <= b <= s.len(),
            r@ == s@.subrange(a as int, k as int),
        decreases b - k,
    {
        r.push(s[k]);
        proof {
            assert(r@ =~= s@.subrange(a as int, k + 1));
        }
        k = k + 1;
    }
    proof {
        assert(r@ =~= t.take(b - a));
    }
    r
}


/// `n` occurs in `h` at position `i`.
pub open spec fn occurs_at(h: Seq<char>, n: Seq<char>, i: int) -> bool {
    0 <= i && i + n.len() <= h.len() && h.subrange(i, i + n.len()) == n
}

/// `str::contains` with a string pattern.
pub open spec fn contains(h: Seq<char>, n: Seq<char>) -> bool {
    exists|i: int| occurs_at(h, n, i)
}

/// `str::starts_with` with a string pattern.
pub open spec fn starts_with(h: Seq<char>, n: Seq<char>) -> bool {
    occurs_at(h, n, 0)
}

/// `str::replace`: every occurrence of the non-empty pattern `p`, found left
/// to right without overlap, replaced by `r`.
pub open spec fn replace(s: Seq<char>, p: Seq<char>, r: Seq<char>) -> Seq<char>
    decreases s.len(),
{
    if p.len() == 0 || s.len() < p.len() {
        s
    } else if s.take(p.len() as int) == p {
        r + replace(s.skip(p.len() as int), p, r)
    } else {
        seq![s[0]] + replace(s.skip(1), p, r)
    }
}

/// The parts joined with `sep` between consecutive ones, as `join` on a slice
/// of strings does.
pub open spec fn join(parts: Seq<Seq<char>>, sep: Seq<char>) -> Seq<char>
    decreases parts.len(),
{
    if parts.len() == 0 {
        seq![]
    } else if parts.len() == 1 {
        parts[0]
    } else {
        join(parts.drop_last(), sep) + sep + parts.last()
    }
}

/// The position, counted in characters, of the first `c` in `s`.
/// (`str::find` gives the byte offset of the same character; the text from
/// there on is the same.)
pub open spec fn first_index(s: Seq<char>, c: char) -> Option<int>
    decreases s.len(),
{
    if s.len() == 0 {
        None
    } else {
        match first_index(s.drop_last(), c) {
            Some(i) => Some(i),
            None => if s.last() == c {
                Some(s.len() - 1)
            } else {
                None
            },
        }
    }
}

/// The decimal digit of `d`.
pub open spec fn digit(d: nat) -> char {
    (48 + d) as char
}

/// The decimal digits of `n`, most significant first, without leading zeros.
pub open spec fn digits(n: nat) -> Seq<char>
    decreases n,
{
    if n < 10 {
        seq![digit(n)]
    } else {
        digits(n / 10).push(digit(n % 10))
    }
}

/// The decimal form of `v`, as `Display` writes an integer.
pub open spec fn decimal(v: int) -> Seq<char> {
    if v < 0 {
        seq!['-'] + digits((-v) as nat)
    } else {
        digits(v as nat)
    }
}

/// Whether `n` occurs in `h` at `i`.
pub fn occurs_at_index(h: &Vec<char>, n: &Vec<char>, i: usize) -> (b: bool)
    ensures
        b == occurs_at(h@, n@, i as int),
{
    if i > h.len() || n.len() > h.len() - i {
        return false;
    }
    let mut k: usize = 0;
    while k < n.len()
        invariant
            i + n.len() <= h.len(),
            k <= n.len(),
            forall|j: int| 0 <= j < k ==> h@[i + j] == n@[j],
        decreases n.len() - k,
    {
        if h[i + k] != n[k] {
            proof {
                assert(h@.subrange(i as int, i + n.len())[k as int] != n@[k as int]);
            }
            return false;
        }
        k = k + 1;
    }
    proof {
        assert(h@.subrange(i as int, i + n.len()) =~= n@);
    }
    true
}

/// Whether `n` occurs anywhere in `h`.
pub fn contains_chars(h: &Vec<char>, n: &Vec<char>) -> (b: bool)
    ensures
        b == contains(h@, n@),
{
    if n.len() > h.len() {
        return false;
    }
    let limit = h.len() - n.len();
    let mut i: usize = 0;
    loop
        invariant
            limit == h.len() - n.len(),
            i <= limit,
            forall|j: int| 0 <= j < i ==> !occurs_at(h@, n@, j),
        ensures
            forall|j: int| 0 <= j <= limit ==> !occurs_at(h@, n@, j),
        decreases limit - i,
    {
        if occurs_at_index(h, n, i) {
            return true;
        }
        if i == limit {
            break;
        }
        i = i + 1;
    }
    proof {
        assert forall|j: int| !occurs_at(h@, n@, j) by {
            if 0 <= j && j + n@.len() <= h@.len() {
                assert(j <= limit);
            }
        }
    }
    false
}

/// Whether `h` begins with `n`.
pub fn starts_with_chars(h: &Vec<char>, n: &Vec<char>) -> (b: bool)
    ensures
        b == starts_with(h@, n@),
{
    occurs_at_index(h, n, 0)
}

/// `s` with every occurrence of `p` replaced by `r`.
pub fn replace_chars(s: &Vec<char>, p: &Vec<char>, r: &Vec<char>) -> (out: Vec<char>)
    requires
        p.len() > 0,
    ensures
        out@ == replace(s@, p@, r@),
{
    let mut out: Vec<char> = Vec::new();
    let mut i: usize = 0;
    proof {
        assert(s@.skip(0) =~= s@);
    }
    while i < s.len()
        invariant
            p.len() > 0,
            i <= s.len(),
            replace(s@, p@, r@) == out@ + replace(s@.skip(i as int), p@, r@),
        decreases s.len() - i,
    {
        let ghost rest = s@.skip(i as int);
        if occurs_at_index(s, p, i) {
            proof {
                assert(rest.take(p.len() as int) =~= s@.subrange(i as int, i + p.len()));
                assert(rest.skip(p.len() as int) =~= s@.skip(i + p.len()));
            }
            let mut k: usize = 0;
            let ghost out0 = out@;
            while k < r.len()
                invariant
                    k <= r.len(),
                    out@ == out0 + r@.take(k as int),
                decreases r.len() - k,
            {
                out.push(r[k]);
                proof {
                    assert(r@.take(k + 1) =~= r@.take(k as int).push(r@[k as int]));
                }
                k = k + 1;
            }
            proof {
                assert(r@.take(r.len() as int) =~= r@);
                assert(out0 + (r@ + replace(s@.skip(i + p.len()), p@, r@)) =~= out@ + replace(
                    s@.skip(i + p.len()),
                    p@,
                    r@,
                ));
            }
            i = i + p.len();
        } else {
            proof {
                if rest.len() >= p@.len() {
                    assert(rest.take(p.len() as int) =~= s@.subrange(i as int, i + p.len()));
                }
                assert(rest.skip(1) =~= s@.skip(i + 1));
                assert(out@ + (seq![s@[i as int]] + replace(s@.skip(i + 1), p@, r@)) =~= out@.push(
                    s@[i as int],
                ) + replace(s@.skip(i + 1), p@, r@));
            }
            out.push(s[i]);
            i = i + 1;
        }
    }
    proof {
        assert(out@ + replace(s@.skip(i as int), p@, r@) =~= out@);
    }
    out
}

/// The parts joined with `sep`.
pub fn join_chars(parts: &Vec<Vec<char>>, sep: &Vec<char>) -> (out: Vec<char>)
    ensures
        out@ == join(views(parts@), sep@),
{
    let mut out: Vec<char> = Vec::new();
    let mut i: usize = 0;
    while i < parts.len()
        invariant
            i <= parts.len(),
            out@ == join(views(parts@).take(i as int), sep@),
        decreases parts.len() - i,
    {
        let ghost vs = views(parts@);
        proof {
            assert(vs.take(i + 1).drop_last() =~= vs.take(i as int));
        }
        if i > 0 {
            append_chars(&mut out, sep);
        }
        append_chars(&mut out, &parts[i]);
        proof {
            if i == 0 {
                assert(out@ =~= vs.take(1)[0]);
            }
        }
        i = i + 1;
    }
    proof {
        assert(views(parts@).take(parts.len() as int) =~= views(parts@));
    }
    out
}

/// Appends the characters of `tail` to `out`.
pub fn append_chars(out: &mut Vec<char>, tail: &Vec<char>)
    ensures
        final(out)@ == old(out)@ + tail@,
{
    let mut k: usize = 0;
    let ghost out0 = out@;
    while k < tail.len()
        invariant
            k <= tail.len(),
            out@ == out0 + tail@.take(k as int),
        decreases tail.len() - k,
    {
        out.push(tail[k]);
        proof {
            assert(tail@.take(k + 1) =~= tail@.take(k as int).push(tail@[k as int]));
        }
        k = k + 1;
    }
    proof {
        assert(tail@.take(tail.len() as int) =~= tail@);
    }
}

/// The position of the first `c` in `s`.
pub fn find_char(s: &Vec<char>, c: char) -> (r: Option<usize>)
    ensures
        r matches Some(i) ==> first_index(s@, c) == Some(i as int) && i < s@.len(),
        r is None ==> first_index(s@, c) is None,
{
    let mut i: usize = 0;
    while i < s.len()
        invariant
            i <= s.len(),
            first_index(s@.take(i as int), c) is None,
        decreases s.len() - i,
    {
        proof {
            assert(s@.take(i + 1).drop_last() =~= s@.take(i as int));
        }
        if s[i] == c {
            proof {
                assert(first_index(s@.take(i + 1), c) == Some(i as int));
                lemma_first_index_prefix(s@, i + 1, c);
            }
            return Some(i);
        }
        i = i + 1;
    }
    proof {
        assert(s@.take(s.len() as int) =~= s@);
    }
    None
}

/// A first occurrence within a prefix is the first occurrence in the whole.
proof fn lemma_first_index_prefix(s: Seq<char>, k: int, c: char)
    requires
        0 <= k <= s.len(),
        first_index(s.take(k), c) is Some,
    ensures
        first_index(s, c) == first_index(s.take(k), c),
    decreases s.len() - k,
{
    if k < s.len() {
        assert(s.take(k + 1).drop_last() =~= s.take(k));
        assert(first_index(s.take(k + 1), c) == first_index(s.take(k), c));
        lemma_first_index_prefix(s, k + 1, c);
    } else {
        assert(s.take(k) =~= s);
    }
}

/// The decimal digits of `n` appended to `out`.
fn push_digits(n: u32, out: &mut Vec<char>)
    ensures
        final(out)@ == old(out)@ + digits(n as nat),
    decreases n,
{
    if n >= 10 {
        push_digits(n / 10, out);
    }
    let d: u8 = (n % 10) as u8;
    out.push((48u8 + d) as char);
    proof {
        assert(((48u8 + d) as char) == digit((n % 10) as nat));
    }
}

/// The decimal form of `v`.
pub fn decimal_chars(v: i32) -> (out: Vec<char>)
    ensures
        out@ == decimal(v as int),
{
    let mut out: Vec<char> = Vec::new();
    if v < 0 {
        out.push('-');
        let m: u32 = if v == i32::MIN {
            2147483648u32
        } else {
            (-v) as u32
        };
        push_digits(m, &mut out);
    } else {
        push_digits(v as u32, &mut out);
    }
    out
}


/// The views of a sequence of strings.
pub open spec fn strings(v: Seq<String>) -> Seq<Seq<char>> {
    v.map_values(|x: String| x@)
}

/// The view of an optional string.
pub open spec fn opt_text(o: Option<String>) -> Option<Seq<char>> {
    match o {
        Some(s) => Some(s@),
        None => None,
    }
}

/// The string holding `s`.
pub fn to_string(s: &Vec<char>) -> (r: String)
    ensures
        r@ == s@,
{
    string_from_chars(s.as_slice())
}

/// Whether two texts are equal.
pub fn same_text(a: &str, b: &str) -> (r: bool)
    ensures
        r == (a@ == b@),
{
    let x = to_chars(a);
    let y = to_chars(b);
    if x.len() != y.len() {
        return false;
    }
    let r = occurs_at_index(&x, &y, 0);
    proof {
        assert(x@.subrange(0, y@.len() as int) =~= x@);
    }
    r
}

/// A copy of `s`.
pub fn copy_string(s: &String) -> (r: String)
    ensures
        r@ == s@,
{
    s.clone()
}

/// A copy of an optional string.
pub fn copy_opt_string(o: &Option<String>) -> (r: Option<String>)
    ensures
        opt_text(r) == opt_text(*o),
{
    match o {
        Some(s) => Some(s.clone()),
        None => None,
    }
}

/// `c` made small if it is an ASCII capital letter; any other character is
/// left as it is.
pub open spec fn ascii_lower(c: char) -> char {
    if 'A' <= c && c <= 'Z' {
        ((c as u32) + 32) as char
    } else {
        c
    }
}

/// `c` made capital if it is an ASCII small letter; any other character is
/// left as it is.
pub open spec fn ascii_upper(c: char) -> char {
    if 'a' <= c && c <= 'z' {
        ((c as u32) - 32) as char
    } else {
        c
    }
}

/// `s` with each ASCII capital letter made small.
pub open spec fn ascii_lowercase(s: Seq<char>) -> Seq<char> {
    Seq::new(s.len(), |i: int| ascii_lower(s[i]))
}

/// `s` with each ASCII small letter made capital.
pub open spec fn ascii_uppercase(s: Seq<char>) -> Seq<char> {
    Seq::new(s.len(), |i: int| ascii_upper(s[i]))
}

/// What `str::to_lowercase` returns for a text under the Unicode tables of
/// the standard library.
pub uninterp spec fn unicode_lowercase(s: Seq<char>) -> Seq<char>;

/// What `str::to_uppercase` returns for a text under the Unicode tables of
/// the standard library.
pub uninterp spec fn unicode_uppercase(s: Seq<char>) -> Seq<char>;

/// The lowercase form of `s`, as `str::to_lowercase` gives it: a text in
/// ASCII has each capital letter made small, character for character; the
/// mapping of any other text is `unicode_lowercase`.
pub open spec fn lowercase(s: Seq<char>) -> Seq<char> {
    if is_ascii_chars(s) {
        ascii_lowercase(s)
    } else {
        unicode_lowercase(s)
    }
}

/// The uppercase form of `s`, as `str::to_uppercase` gives it: a text in
/// ASCII has each small letter made capital, character for character; the
/// mapping of any other text is `unicode_uppercase`.
pub open spec fn uppercase(s: Seq<char>) -> Seq<char> {
    if is_ascii_chars(s) {
        ascii_uppercase(s)
    } else {
        unicode_uppercase(s)
    }
}

/// `str::to_lowercase`. Its result is a function of the text alone, named
/// `unicode_lowercase`; as documented, of an ASCII text it is the text with
/// `A` to `Z` made `a` to `z` and every other character kept.
#[verifier::external_body]
pub(crate) fn to_lowercase(s: &str) -> (r: String)
    ensures
        r@ == unicode_lowercase(s@),
        is_ascii_chars(s@) ==> r@ == ascii_lowercase(s@),
        r@ == lowercase(s@),
{
    s.to_lowercase()
}

/// `str::to_uppercase`. Its result is a function of the text alone, named
/// `unicode_uppercase`; as documented, of an ASCII text it is the text with
/// `a` to `z` made `A` to `Z` and every other character kept.
#[verifier::external_body]
pub(crate) fn to_uppercase(s: &str) -> (r: String)
    ensures
        r@ == unicode_uppercase(s@),
        is_ascii_chars(s@) ==> r@ == ascii_uppercase(s@),
        r@ == uppercase(s@),
{
    s.to_uppercase()
}

/// The number of `c` in `s`.
pub open spec fn count_char(s: Seq<char>, c: char) -> nat
    decreases s.len(),
{
    if s.len() == 0 {
        0
    } else {
        count_char(s.drop_last(), c) + if s.last() == c {
            1nat
        } else {
            0nat
        }
    }
}

/// The number of `c` in `s`.
pub fn count_chars(s: &Vec<char>, c: char) -> (n: usize)
    ensures
        n == count_char(s@, c),
{
    let mut n: usize = 0;
    let mut i: usize = 0;
    while i < s.len()
        invariant
            i <= s.len(),
            n == count_char(s@.take(i as int), c),
            n <= i,
        decreases s.len() - i,
    {
        proof {
            assert(s@.take(i + 1).drop_last() =~= s@.take(i as int));
        }
        if s[i] == c {
            n = n + 1;
        }
        i = i + 1;
    }
    proof {
        assert(s@.take(s.len() as int) =~= s@);
    }
    n
}

/// `a` followed by `b`.
pub fn concat(a: &Vec<char>, b: &Vec<char>) -> (r: Vec<char>)
    ensures
        r@ == a@ + b@,
{
    let mut r: Vec<char> = Vec::new();
    append_chars(&mut r, a);
    append_chars(&mut r, b);
    proof {
        assert(r@ =~= a@ + b@);
    }
    r
}


/// The views of a sequence of string slices.
pub open spec fn str_views(v: Seq<&str>) -> Seq<Seq<char>> {
    v.map_values(|x: &str| x@)
}

/// Owned copies of the given texts.
pub fn owned_all(items: &[&str]) -> (r: Vec<String>)
    ensures
        strings(r@) == str_views(items@),
{
    let mut r: Vec<String> = Vec::new();
    let mut i: usize = 0;
    while i < items.len()
        invariant
            i <= items.len(),
            strings(r@) == str_views(items@).take(i as int),
        decreases items.len() - i,
    {
        let c: String = items[i].to_owned();
        let ghost r0 = r@;
        r.push(c);
        proof {
            assert(strings(r@) =~= strings(r0).push(c@));
            assert(strings(r@) =~= str_views(items@).take(i + 1));
        }
        i = i + 1;
    }
    proof {
        assert(str_views(items@).take(items.len() as int) =~= str_views(items@));
    }
    r
}


/// A copy of `s`.
pub fn copy_chars(s: &Vec<char>) -> (r: Vec<char>)
    ensures
        r@ == s@,
{
    let mut r: Vec<char> = Vec::new();
    append_chars(&mut r, s);
    proof {
        assert(r@ =~= s@);
    }
    r
}

/// The characters of `s` from position `k` on.
pub fn chars_from(s: &Vec<char>, k: usize) -> (r: Vec<char>)
    requires
        k <= s.len(),
    ensures
        r@ == s@.skip(k as int),
{
    let mut r: Vec<char> = Vec::new();
    let mut j: usize = k;
    while j < s.len()
        invariant
            k <= j <= s.len(),
            r@ == s@.subrange(k as int, j as int),
        decreases s.len() - j,
    {
        r.push(s[j]);
        proof {
            assert(r@ =~= s@.subrange(k as int, j + 1));
        }
        j = j + 1;
    }
    proof {
        assert(r@ =~= s@.skip(k as int));
    }
    r
}

/// The characters of `s` before position `k`.
pub fn chars_before(s: &Vec<char>, k: usize) -> (r: Vec<char>)
    requires
        k <= s.len(),
    ensures
        r@ == s@.take(k as int),
{
    let mut r: Vec<char> = Vec::new();
    let mut j: usize = 0;
    while j < k
        invariant
            j <= k <= s.len(),
            r@ == s@.take(j as int),
        decreases k - j,
    {
        r.push(s[j]);
        proof {
            assert(r@ =~= s@.take(j + 1));
        }
        j = j + 1;
    }
    r
}

} // verus!
