//! Character-level text model shared by the rest of the library.
//!
//! Strings are modelled by their views, sequences of `char`.  The spec
//! functions here state what the std string operations that the tool relies
//! on compute (trimming, prefix tests, ASCII case folding, replacement,
//! joining), and the executable functions compute them on `Vec<char>`.
use vstd::prelude::*;

verus! {

/// The Unicode `White_Space` property, the set that `char::is_whitespace` and
/// `str::trim` use.
pub open spec fn is_space(c: char) -> bool {
    let u = c as u32;
    ||| 0x09 <= u && u <= 0x0d
    ||| u == 0x20
    ||| u == 0x85
    ||| u == 0xa0
    ||| u == 0x1680
    ||| 0x2000 <= u && u <= 0x200a
    ||| u == 0x2028
    ||| u == 0x2029
    ||| u == 0x202f
    ||| u == 0x205f
    ||| u == 0x3000
}

/// `s` without its leading white space.
pub open spec fn trim_start(s: Seq<char>) -> Seq<char>
    decreases s.len(),
{
    if s.len() > 0 && is_space(s[0]) {
        trim_start(s.drop_first())
    } else {
        s
    }
}

/// `s` without its trailing white space.
pub open spec fn trim_end(s: Seq<char>) -> Seq<char>
    decreases s.len(),
{
    if s.len() > 0 && is_space(s.last()) {
        trim_end(s.drop_last())
    } else {
        s
    }
}

/// `s` without white space at either end, as `str::trim` gives it.
pub open spec fn trim(s: Seq<char>) -> Seq<char> {
    trim_end(trim_start(s))
}

/// `s` without any trailing copies of `c`, as `str::trim_end_matches(c)` gives it.
pub open spec fn trim_end_char(s: Seq<char>, c: char) -> Seq<char>
    decreases s.len(),
{
    if s.len() > 0 && s.last() == c {
        trim_end_char(s.drop_last(), c)
    } else {
        s
    }
}

/// The code of `c` after ASCII lower-casing.
pub open spec fn folded(c: char) -> u32 {
    let u = c as u32;
    if 0x41 <= u && u <= 0x5a {
        (u + 32) as u32
    } else {
        u
    }
}

/// Equality up to ASCII case, as `str::eq_ignore_ascii_case` decides it.
pub open spec fn eq_ignore_case(a: Seq<char>, b: Seq<char>) -> bool {
    &&& a.len() == b.len()
    &&& forall|i: int| 0 <= i < a.len() ==> folded(a[i]) == folded(b[i])
}

/// Whether `needle` occurs in `hay` up to ASCII case.
pub open spec fn contains_ignore_case(hay: Seq<char>, needle: Seq<char>) -> bool {
    exists|i: int|
        0 <= i && i + needle.len() <= hay.len() && #[trigger] eq_ignore_case(
            hay.subrange(i, i + needle.len()),
            needle,
        )
}

/// Every non-overlapping occurrence of `pat`, found from the left, replaced
/// by `rep`: what `str::replace` computes for a non-empty pattern.
pub open spec fn replace_all(s: Seq<char>, pat: Seq<char>, rep: Seq<char>) -> Seq<char>
    decreases s.len(),
{
    if pat.len() == 0 || s.len() < pat.len() {
        s
    } else if pat.is_prefix_of(s) {
        rep + replace_all(s.skip(pat.len() as int), pat, rep)
    } else {
        seq![s[0]] + replace_all(s.drop_first(), pat, rep)
    }
}

/// The parts joined with `sep` between each two of them.
pub open spec fn join(parts: Seq<Seq<char>>, sep: Seq<char>) -> Seq<char>
    decreases parts.len(),
{
    if parts.len() == 0 {
        Seq::empty()
    } else if parts.len() == 1 {
        parts[0]
    } else {
        join(parts.drop_last(), sep) + sep + parts.last()
    }
}

/// The views of a sequence of strings.
pub open spec fn views(v: Seq<String>) -> Seq<Seq<char>> {
    v.map_values(|s: String| s@)
}

/// The decimal digits of `n`.
pub open spec fn decimal(n: nat) -> Seq<char>
    decreases n,
{
    if n < 10 {
        seq![digit(n)]
    } else {
        decimal(n / 10) + seq![digit(n % 10)]
    }
}

/// The character of the decimal digit `d`.
pub open spec fn digit(d: nat) -> char {
    if d == 0 {
        '0'
    } else if d == 1 {
        '1'
    } else if d == 2 {
        '2'
    } else if d == 3 {
        '3'
    } else if d == 4 {
        '4'
    } else if d == 5 {
        '5'
    } else if d == 6 {
        '6'
    } else if d == 7 {
        '7'
    } else if d == 8 {
        '8'
    } else {
        '9'
    }
}

/// Lexicographic order of character codes: the order of `String`s, whose
/// byte order in UTF-8 is the order of their code points.
pub open spec fn seq_lt(a: Seq<char>, b: Seq<char>) -> bool
    decreases a.len(),
{
    if b.len() == 0 {
        false
    } else if a.len() == 0 {
        true
    } else if a[0] != b[0] {
        (a[0] as u32) < (b[0] as u32)
    } else {
        seq_lt(a.drop_first(), b.drop_first())
    }
}

/// `rel` appended to the path `base` the way `Path::join` does it on Unix:
/// an absolute `rel` replaces `base`, otherwise one `/` separates them unless
/// `base` is empty or already ends with one.
pub open spec fn path_join(base: Seq<char>, rel: Seq<char>) -> Seq<char> {
    if rel.len() > 0 && rel[0] == '/' {
        rel
    } else if base.len() == 0 || base.last() == '/' {
        base + rel
    } else {
        base + seq!['/'] + rel
    }
}

/// The pieces of `s` between slashes, in order; a text without a slash is
/// one piece, possibly empty.
pub open spec fn slash_pieces(s: Seq<char>) -> Seq<Seq<char>>
    decreases s.len(),
{
    if s.len() == 0 {
        seq![Seq::empty()]
    } else if s.last() == '/' {
        slash_pieces(s.drop_last()).push(Seq::empty())
    } else {
        let p = slash_pieces(s.drop_last());
        p.update(p.len() - 1, p.last().push(s.last()))
    }
}

/// The pieces that are components of a Unix path, as `Path::components`
/// yields them after the root: empty pieces (repeated or trailing slashes)
/// are dropped, and so is `.` except as the first piece.
pub open spec fn kept_pieces(p: Seq<Seq<char>>) -> Seq<Seq<char>>
    decreases p.len(),
{
    if p.len() == 0 {
        Seq::empty()
    } else {
        let rest = kept_pieces(p.drop_last());
        if p.last().len() == 0 || (p.last() == seq!['.'] && p.len() > 1) {
            rest
        } else {
            rest.push(p.last())
        }
    }
}

/// A text for the components of a Unix path: `/` first when it has a
/// root, then the other components joined with `/`.  Two paths are equal as
/// `Path`s compare them exactly when these texts are equal.
pub open spec fn path_key(s: Seq<char>) -> Seq<char> {
    (if s.len() > 0 && s[0] == '/' {
        seq!['/']
    } else {
        Seq::empty()
    }) + join(kept_pieces(slash_pieces(s)), seq!['/'])
}

/// The text for the components of the Unix path `s`.
pub fn path_key_of(s: &str) -> (r: String)
    ensures
        r@ == path_key(s@),
{
    let v = chars_of(s);
    let mut kept: Vec<String> = Vec::new();
    let mut current: Vec<char> = Vec::new();
    let mut first = true;
    let mut i: usize = 0;
    assert(v@.take(0) =~= Seq::<char>::empty());
    while i < v.len()
        invariant
            i <= v@.len(),
            v@ == s@,
            slash_pieces(v@.take(i as int)).len() >= 1,
            first == (slash_pieces(v@.take(i as int)).len() == 1),
            current@ == slash_pieces(v@.take(i as int)).last(),
            views(kept@) == kept_pieces(slash_pieces(v@.take(i as int)).drop_last()),
        decreases v@.len() - i,
    {
        let ghost p = slash_pieces(v@.take(i as int));
        let ghost t = v@.take(i + 1);
        assert(t.drop_last() =~= v@.take(i as int));
        assert(t.last() == v@[i as int]);
        let c = v[i];
        if c == '/' {
            let dot = current.len() == 1 && current[0] == '.';
            if !(current.len() == 0 || (dot && !first)) {
                let ghost before = kept@;
                let piece = string_from_chars(&current);
                kept.push(piece);
                assert(views(kept@) =~= views(before).push(piece@));
            }
            proof {
                assert(p.drop_last().push(p.last()) =~= p);
                if dot {
                    assert(current@ =~= seq!['.']);
                } else if current@ == seq!['.'] {
                    assert(current@[0] == '.');
                }
                assert(slash_pieces(t) == p.push(Seq::<char>::empty()));
                assert(slash_pieces(t).drop_last() =~= p);
            }
            current = Vec::new();
            first = false;
        } else {
            current.push(c);
            proof {
                assert(slash_pieces(t) == p.update(p.len() - 1, p.last().push(c)));
                assert(slash_pieces(t).drop_last() =~= p.drop_last());
            }
        }
        i += 1;
    }
    assert(v@.take(v@.len() as int) =~= v@);
    let ghost p = slash_pieces(v@);
    let dot = current.len() == 1 && current[0] == '.';
    if !(current.len() == 0 || (dot && !first)) {
        let ghost before = kept@;
        let piece = string_from_chars(&current);
        kept.push(piece);
        assert(views(kept@) =~= views(before).push(piece@));
    }
    proof {
        assert(p.drop_last().push(p.last()) =~= p);
        if dot {
            assert(current@ =~= seq!['.']);
        } else if current@ == seq!['.'] {
            assert(current@[0] == '.');
        }
        assert(views(kept@) == kept_pieces(p));
    }
    let joined = join_strings(&kept, "/");
    proof {
        reveal_strlit("/");
        assert("/"@ =~= seq!['/']);
    }
    if v.len() > 0 && v[0] == '/' {
        concat("/", joined.as_str())
    } else {
        joined
    }
}

/// The text that `{:?}` gives for a string: the string quoted and escaped
/// the way `<str as Debug>::fmt` does it.
pub uninterp spec fn debug_quoted(s: Seq<char>) -> Seq<char>;

/// Quotes `s` the way `format!("{:?}", s)` does.
///
/// Trusted: calls `<str as core::fmt::Debug>::fmt` through `format!`; the
/// contract only names the result, which depends on the text alone.
#[verifier::external_body]
pub(crate) fn debug_quote(s: &str) -> (r: String)
    ensures
        r@ == debug_quoted(s@),
{
    format!("{:?}", s)
}

/// Builds a `String` from its characters.
///
/// Trusted: calls `<String as FromIterator<char>>::from_iter`, which
/// collects the characters in order.
#[verifier::external_body]
pub(crate) fn string_from_chars(v: &Vec<char>) -> (s: String)
    ensures
        s@ == v@,
{
    String::from_iter(v.iter())
}

/// The characters of `s`, in order.
pub fn chars_of(s: &str) -> (v: Vec<char>)
    ensures
        v@ == s@,
{
    let mut v: Vec<char> = Vec::new();
    for c in it: s.chars()
        invariant
            v@ == it.seq().take(it.index() as int),
            it.seq() == s@,
    {
        v.push(c);
    }
    v
}

/// A new string that holds `a` followed by `b`.
pub fn concat(a: &str, b: &str) -> (r: String)
    ensures
        r@ == a@ + b@,
{
    let mut v = chars_of(a);
    let w = chars_of(b);
    append_chars(&mut v, &w);
    string_from_chars(&v)
}

/// A new string that holds the parts one after the other.
pub fn concat_all(parts: &Vec<&str>) -> (r: String)
    ensures
        r@ == join(parts@.map_values(|s: &str| s@), Seq::<char>::empty()),
{
    let ghost ps = parts@.map_values(|s: &str| s@);
    let mut out: Vec<char> = Vec::new();
    let mut i: usize = 0;
    while i < parts.len()
        invariant
            i <= parts@.len(),
            ps == parts@.map_values(|s: &str| s@),
            out@ == join(ps.take(i as int), Seq::<char>::empty()),
        decreases parts@.len() - i,
    {
        let w = chars_of(parts[i]);
        append_chars(&mut out, &w);
        proof {
            let t = ps.take(i + 1);
            assert(t.drop_last() =~= ps.take(i as int));
            assert(t.last() == ps[i as int]);
            if i == 0 {
                assert(out@ =~= ps[0]);
            } else {
                assert(out@ =~= join(t.drop_last(), Seq::<char>::empty()) + Seq::<char>::empty()
                    + t.last());
            }
        }
        i += 1;
    }
    proof {
        assert(ps.take(parts@.len() as int) =~= ps);
    }
    string_from_chars(&out)
}

/// Appends the characters of `w` to `v`.
pub fn append_chars(v: &mut Vec<char>, w: &Vec<char>)
    ensures
        final(v)@ == old(v)@ + w@,
{
    let mut i: usize = 0;
    while i < w.len()
        invariant
            i <= w@.len(),
            v@ == old(v)@ + w@.take(i as int),
        decreases w@.len() - i,
    {
        v.push(w[i]);
        proof {
            assert(w@.take(i + 1) =~= w@.take(i as int).push(w@[i as int]));
        }
        i += 1;
    }
    proof {
        assert(w@.take(w@.len() as int) =~= w@);
    }
}

/// The characters of `v` from `a` up to `b`.
pub fn chars_between(v: &Vec<char>, a: usize, b: usize) -> (r: Vec<char>)
    requires
        a <= b <= v@.len(),
    ensures
        r@ == v@.subrange(a as int, b as int),
{
    let mut r: Vec<char> = Vec::new();
    let mut i: usize = a;
    while i < b
        invariant
            a <= i <= b <= v@.len(),
            r@ == v@.subrange(a as int, i as int),
        decreases b - i,
    {
        r.push(v[i]);
        proof {
            assert(v@.subrange(a as int, i + 1) =~= v@.subrange(a as int, i as int).push(
                v@[i as int],
            ));
        }
        i += 1;
    }
    r
}

/// Whether `c` is white space in the sense of `char::is_whitespace`.
pub fn char_is_space(c: char) -> (b: bool)
    ensures
        b == is_space(c),
{
    let u = c as u32;
    (0x09 <= u && u <= 0x0d) || u == 0x20 || u == 0x85 || u == 0xa0 || u == 0x1680 || (0x2000
        <= u && u <= 0x200a) || u == 0x2028 || u == 0x2029 || u == 0x202f || u == 0x205f || u
        == 0x3000
}

proof fn lemma_trim_start_skip(s: Seq<char>, i: int)
    requires
        0 <= i < s.len(),
        is_space(s[i]),
    ensures
        trim_start(s.skip(i)) == trim_start(s.skip(i + 1)),
{
    assert(s.skip(i).drop_first() =~= s.skip(i + 1));
}

/// The characters of `v` without white space at either end.
pub fn trim_chars(v: &Vec<char>) -> (r: Vec<char>)
    ensures
        r@ == trim(v@),
{
    let mut a: usize = 0;
    assert(v@.skip(0) =~= v@);
    while a < v.len() && char_is_space(v[a])
        invariant
            a <= v@.len(),
            trim_start(v@) == trim_start(v@.skip(a as int)),
        decreases v@.len() - a,
    {
        proof {
            lemma_trim_start_skip(v@, a as int);
        }
        a += 1;
    }
    let ghost rest = v@.skip(a as int);
    assert(trim_start(v@) == rest);
    let mut b: usize = v.len();
    while b > a && char_is_space(v[b - 1])
        invariant
            a <= b <= v@.len(),
            rest == v@.skip(a as int),
            trim_end(rest) == trim_end(v@.subrange(a as int, b as int)),
        decreases b - a,
    {
        proof {
            let w = v@.subrange(a as int, b as int);
            assert(w.drop_last() =~= v@.subrange(a as int, b - 1));
        }
        b -= 1;
    }
    proof {
        assert(v@.subrange(a as int, v@.len() as int) =~= rest);
    }
    chars_between(v, a, b)
}

/// `s` without white space at either end, as `str::trim` gives it.
pub fn trim_str(s: &str) -> (r: String)
    ensures
        r@ == trim(s@),
{
    let v = chars_of(s);
    let t = trim_chars(&v);
    string_from_chars(&t)
}

/// The characters of `v` without any trailing copies of `c`.
pub fn trim_end_char_chars(v: &Vec<char>, c: char) -> (r: Vec<char>)
    ensures
        r@ == trim_end_char(v@, c),
{
    let mut b: usize = v.len();
    assert(v@.take(v@.len() as int) =~= v@);
    while b > 0 && v[b - 1] == c
        invariant
            b <= v@.len(),
            trim_end_char(v@, c) == trim_end_char(v@.take(b as int), c),
        decreases b,
    {
        proof {
            assert(v@.take(b as int).drop_last() =~= v@.take(b - 1));
        }
        b -= 1;
    }
    proof {
        assert(v@.take(v@.len() as int) =~= v@);
    }
    chars_between(v, 0, b)
}

/// Whether `p` is a prefix of `v`.
pub fn has_prefix(v: &Vec<char>, p: &Vec<char>) -> (b: bool)
    ensures
        b == p@.is_prefix_of(v@),
{
    if p.len() > v.len() {
        return false;
    }
    let mut i: usize = 0;
    while i < p.len()
        invariant
            p@.len() <= v@.len(),
            i <= p@.len(),
            forall|j: int| 0 <= j < i ==> v@[j] == p@[j],
        decreases p@.len() - i,
    {
        if v[i] != p[i] {
            return false;
        }
        i += 1;
    }
    assert(v@.take(p@.len() as int) =~= p@);
    true
}

/// Whether `p` is a suffix of `v`.
pub fn has_suffix(v: &Vec<char>, p: &Vec<char>) -> (b: bool)
    ensures
        b == p@.is_suffix_of(v@),
{
    if p.len() > v.len() {
        return false;
    }
    let off = v.len() - p.len();
    let mut i: usize = 0;
    while i < p.len()
        invariant
            p@.len() <= v@.len(),
            off + p@.len() == v@.len(),
            v@.len() <= usize::MAX,
            i <= p@.len(),
            forall|j: int| 0 <= j < i ==> v@[off + j] == p@[j],
        decreases p@.len() - i,
    {
        let k: usize = off + i;
        if v[k] != p[i] {
            return false;
        }
        i += 1;
    }
    assert(v@.skip(off as int) =~= p@);
    true
}

/// The ASCII-folded code of `c`.
pub fn fold_char(c: char) -> (u: u32)
    ensures
        u == folded(c),
{
    let u = c as u32;
    if 0x41 <= u && u <= 0x5a {
        u + 32
    } else {
        u
    }
}

/// Whether `a` and `b` are equal up to ASCII case.
pub fn chars_eq_ignore_case(a: &Vec<char>, b: &Vec<char>) -> (r: bool)
    ensures
        r == eq_ignore_case(a@, b@),
{
    if a.len() != b.len() {
        return false;
    }
    let mut i: usize = 0;
    while i < a.len()
        invariant
            a@.len() == b@.len(),
            i <= a@.len(),
            forall|j: int| 0 <= j < i ==> folded(a@[j]) == folded(b@[j]),
        decreases a@.len() - i,
    {
        if fold_char(a[i]) != fold_char(b[i]) {
            return false;
        }
        i += 1;
    }
    true
}

/// Whether `a` and `b` are equal up to ASCII case, as
/// `str::eq_ignore_ascii_case` decides it.
pub fn eq_ignore_ascii_case(a: &str, b: &str) -> (r: bool)
    ensures
        r == eq_ignore_case(a@, b@),
{
    let x = chars_of(a);
    let y = chars_of(b);
    chars_eq_ignore_case(&x, &y)
}

/// Whether `needle` occurs in `hay` up to ASCII case.
pub fn contains_ignore_ascii_case(hay: &str, needle: &str) -> (r: bool)
    ensures
        r == contains_ignore_case(hay@, needle@),
{
    let h = chars_of(hay);
    let n = chars_of(needle);
    if n.len() > h.len() {
        proof {
            assert forall|i: int|
                0 <= i && i + n@.len() <= h@.len() implies !#[trigger] eq_ignore_case(
                h@.subrange(i, i + n@.len()),
                n@,
            ) by {}
        }
        return false;
    }
    let mut i: usize = 0;
    while i <= h.len() - n.len()
        invariant
            n@.len() <= h@.len(),
            h@ == hay@,
            n@ == needle@,
            i <= h@.len() - n@.len() + 1,
            forall|j: int|
                0 <= j < i ==> !#[trigger] eq_ignore_case(h@.subrange(j, j + n@.len()), n@),
        decreases h@.len() - n@.len() + 1 - i,
    {
        let w = chars_between(&h, i, i + n.len());
        if chars_eq_ignore_case(&w, &n) {
            return true;
        }
        i += 1;
    }
    false
}

/// Every non-overlapping occurrence of `pat` in `s` replaced by `rep`, as
/// `str::replace` gives it.
pub fn replace_str(s: &str, pat: &str, rep: &str) -> (r: String)
    requires
        pat@.len() > 0,
    ensures
        r@ == replace_all(s@, pat@, rep@),
{
    let v = chars_of(s);
    let p = chars_of(pat);
    let q = chars_of(rep);
    let mut out: Vec<char> = Vec::new();
    let mut i: usize = 0;
    assert(v@.skip(0) =~= v@);
    assert(out@ + v@ =~= v@);
    while i < v.len()
        invariant
            i <= v@.len(),
            p@.len() > 0,
            replace_all(v@, p@, q@) == out@ + replace_all(v@.skip(i as int), p@, q@),
        decreases v@.len() - i,
    {
        let ghost tail = v@.skip(i as int);
        let rest = chars_between(&v, i, v.len());
        assert(rest@ =~= tail);
        if rest.len() >= p.len() && has_prefix(&rest, &p) {
            append_chars(&mut out, &q);
            proof {
                assert(tail.skip(p@.len() as int) =~= v@.skip(i + p@.len()));
            }
            i += p.len();
        } else if rest.len() < p.len() {
            append_chars(&mut out, &rest);
            proof {
                assert(v@.skip(v@.len() as int) =~= Seq::<char>::empty());
            }
            i = v.len();
        } else {
            out.push(v[i]);
            proof {
                assert(tail.drop_first() =~= v@.skip(i + 1));
                assert(seq![tail[0]] =~= seq![v@[i as int]]);
            }
            i += 1;
        }
    }
    proof {
        assert(v@.skip(v@.len() as int) =~= Seq::<char>::empty());
        assert(out@ + Seq::<char>::empty() =~= out@);
    }
    string_from_chars(&out)
}

/// The decimal digits of `n`.
pub fn decimal_string(n: u32) -> (r: String)
    ensures
        r@ == decimal(n as nat),
{
    let v = decimal_chars(n);
    string_from_chars(&v)
}

fn decimal_chars(n: u32) -> (v: Vec<char>)
    ensures
        v@ == decimal(n as nat),
    decreases n,
{
    let d = digit_char(n % 10);
    if n < 10 {
        let mut v = Vec::new();
        v.push(d);
        assert(v@ =~= seq![digit(n as nat)]);
        v
    } else {
        let mut v = decimal_chars(n / 10);
        v.push(d);
        v
    }
}

fn digit_char(d: u32) -> (c: char)
    requires
        d < 10,
    ensures
        c == digit(d as nat),
{
    if d == 0 {
        '0'
    } else if d == 1 {
        '1'
    } else if d == 2 {
        '2'
    } else if d == 3 {
        '3'
    } else if d == 4 {
        '4'
    } else if d == 5 {
        '5'
    } else if d == 6 {
        '6'
    } else if d == 7 {
        '7'
    } else if d == 8 {
        '8'
    } else {
        '9'
    }
}

/// Whether `a` and `b` hold the same characters.
pub fn str_eq(a: &str, b: &str) -> (r: bool)
    ensures
        r == (a@ == b@),
{
    let x = chars_of(a);
    let y = chars_of(b);
    if x.len() != y.len() {
        return false;
    }
    let mut i: usize = 0;
    while i < x.len()
        invariant
            x@ == a@,
            y@ == b@,
            x@.len() == y@.len(),
            i <= x@.len(),
            forall|j: int| 0 <= j < i ==> x@[j] == y@[j],
        decreases x@.len() - i,
    {
        if x[i] != y[i] {
            return false;
        }
        i += 1;
    }
    assert(x@ =~= y@);
    true
}

/// Whether `a` orders before `b`, as `String`'s `<` decides it.
pub fn str_lt(a: &str, b: &str) -> (r: bool)
    ensures
        r == seq_lt(a@, b@),
{
    let x = chars_of(a);
    let y = chars_of(b);
    let mut i: usize = 0;
    assert(x@.skip(0) =~= x@);
    assert(y@.skip(0) =~= y@);
    while i < x.len() && i < y.len() && x[i] == y[i]
        invariant
            i <= x@.len(),
            i <= y@.len(),
            seq_lt(x@, y@) == seq_lt(x@.skip(i as int), y@.skip(i as int)),
        decreases x@.len() - i,
    {
        proof {
            assert(x@.skip(i as int).drop_first() =~= x@.skip(i + 1));
            assert(y@.skip(i as int).drop_first() =~= y@.skip(i + 1));
        }
        i += 1;
    }
    if i == y.len() {
        false
    } else if i == x.len() {
        true
    } else {
        (x[i] as u32) < (y[i] as u32)
    }
}

/// The parts joined with `sep` between each two of them.
pub fn join_strings(parts: &Vec<String>, sep: &str) -> (r: String)
    ensures
        r@ == join(views(parts@), sep@),
{
    let ghost ps = views(parts@);
    let s = chars_of(sep);
    let mut out: Vec<char> = Vec::new();
    let mut i: usize = 0;
    while i < parts.len()
        invariant
            i <= parts@.len(),
            ps == views(parts@),
            s@ == sep@,
            out@ == join(ps.take(i as int), s@),
        decreases parts@.len() - i,
    {
        let w = chars_of(parts[i].as_str());
        if i > 0 {
            append_chars(&mut out, &s);
        }
        append_chars(&mut out, &w);
        proof {
            let t = ps.take(i + 1);
            assert(t.drop_last() =~= ps.take(i as int));
            assert(t.last() == ps[i as int]);
            if i == 0 {
                assert(out@ =~= ps[0]);
            }
        }
        i += 1;
    }
    proof {
        assert(ps.take(parts@.len() as int) =~= ps);
    }
    string_from_chars(&out)
}

} // verus!

verus! {

/// `rel` appended to the path `base`, as `Path::join` does it on Unix.
pub fn join_path(base: &str, rel: &str) -> (r: String)
    ensures
        r@ == path_join(base@, rel@),
{
    let b = chars_of(base);
    let r = chars_of(rel);
    if r.len() > 0 && r[0] == '/' {
        return string_from_chars(&r);
    }
    let mut out = b;
    if out.len() > 0 && out[out.len() - 1] != '/' {
        out.push('/');
    }
    append_chars(&mut out, &r);
    proof {
        if b@.len() > 0 && b@.last() != '/' {
            assert(out@ =~= b@ + seq!['/'] + r@);
        }
    }
    string_from_chars(&out)
}

} // verus!
