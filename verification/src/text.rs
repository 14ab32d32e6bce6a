//! Text: what the library needs of strings beyond what is specified of them elsewhere.
use vstd::prelude::*;
use vstd::utf8::*;

verus! {

/// The error of `String::from_utf8`, which hands the bytes back. Nothing of it is read.
#[verifier::external_type_specification]
#[verifier::external_body]
pub struct ExFromUtf8Error(std::string::FromUtf8Error);

/// `String::from_utf8` takes the bytes for text exactly when they are well-formed UTF-8, and the
/// text is then the one whose UTF-8 form they are.
pub assume_specification[ String::from_utf8 ](vec: Vec<u8>) -> (res: Result<
    String,
    std::string::FromUtf8Error,
>)
    ensures
        res is Ok <==> valid_utf8(vec@),
        res matches Ok(s) ==> encode_utf8(s@) == vec@,
;

/// How many of the first `k` bytes are text at most, counted from the front.
pub open spec fn longest_text(b: Seq<u8>, k: int) -> int
    decreases k,
{
    if k <= 0 {
        0
    } else if valid_utf8(b.take(k)) {
        k
    } else {
        longest_text(b, k - 1)
    }
}

/// The length of the invalid sequence behind the longest text that bytes begin with, as
/// `Utf8Error::error_len` gives it: nothing where the bytes end inside a character.
pub uninterp spec fn utf8_error_len(bytes: Seq<u8>) -> Option<usize>;

/// `str::from_utf8`, of which only the error is looked at. It fails exactly where the bytes are not
/// well-formed UTF-8. `Utf8Error::valid_up_to` is then the largest number of bytes from the front
/// that are, and `Utf8Error::error_len` depends on the bytes alone.
#[verifier::external_body]
fn utf8_fault(bytes: &[u8]) -> (res: Option<(usize, Option<usize>)>)
    ensures
        match res {
            None => valid_utf8(bytes@),
            Some((valid_up_to, error_len)) => {
                &&& !valid_utf8(bytes@)
                &&& valid_up_to <= bytes@.len()
                &&& valid_utf8(bytes@.take(valid_up_to as int))
                &&& forall|k: int|
                    valid_up_to < k <= bytes@.len() ==> !valid_utf8(#[trigger] bytes@.take(k))
                &&& error_len == utf8_error_len(bytes@)
            },
        },
{
    match std::str::from_utf8(bytes) {
        Ok(_) => None,
        Err(e) => Some((e.valid_up_to(), e.error_len())),
    }
}

proof fn lemma_longest_text(b: Seq<u8>, n: int, k: int)
    requires
        0 <= n <= k <= b.len(),
        valid_utf8(b.take(n)),
        forall|i: int| n < i <= k ==> !valid_utf8(#[trigger] b.take(i)),
    ensures
        longest_text(b, k) == n,
    decreases k,
{
    if k > n {
        assert(!valid_utf8(b.take(k)));
        lemma_longest_text(b, n, k - 1);
    }
}

/// Where bytes stop being text: how many of them are, and how long the invalid sequence behind them
/// is, or nothing where they end inside a character.
pub struct TextFault {
    pub valid_up_to: usize,
    pub error_len: Option<usize>,
}

/// The text that bytes are the UTF-8 form of, or else where they stop being one.
pub(crate) fn text_of(v: &[u8]) -> (res: Result<String, TextFault>)
    ensures
        match res {
            Ok(s) => valid_utf8(v@) && s@ == decode_utf8(v@) && encode_utf8(s@) == v@,
            Err(f) => {
                &&& !valid_utf8(v@)
                &&& f.valid_up_to == longest_text(v@, v@.len() as int)
                &&& f.error_len == utf8_error_len(v@)
            },
        },
{
    if let Some((valid_up_to, error_len)) = utf8_fault(v) {
        proof {
            lemma_longest_text(v@, valid_up_to as int, v@.len() as int);
        }
        return Err(TextFault { valid_up_to, error_len });
    }
    match String::from_utf8(vstd::slice::slice_to_vec(v)) {
        Ok(s) => {
            proof {
                encode_utf8_decode_utf8(s@);
            }
            Ok(s)
        },
        Err(_) => {
            assert(false);
            Err(TextFault { valid_up_to: 0, error_len: None })
        },
    }
}

/// `String::push` appends one character.
pub assume_specification[ String::push ](s: &mut String, c: char)
    ensures
        final(s)@ == old(s)@.push(c),
;

/// The characters of a text.
pub(crate) fn chars_of(s: &str) -> (v: Vec<char>)
    ensures
        v@ == s@,
{
    let mut v: Vec<char> = Vec::new();
    for c in it: s.chars()
        invariant
            it.seq() == s@,
            v@ == s@.take(it.index() as int),
    {
        v.push(c);
        assert(v@ =~= s@.take(it.index() + 1));
    }
    assert(v@ =~= s@);
    v
}

/// The text of some characters.
pub(crate) fn string_of(v: &[char]) -> (s: String)
    ensures
        s@ == v@,
{
    let mut s = String::new();
    let mut i: usize = 0;
    while i < v.len()
        invariant
            i <= v.len(),
            s@ == v@.take(i as int),
        decreases v.len() - i,
    {
        s.push(v[i]);
        assert(s@ =~= v@.take(i + 1));
        i = i + 1;
    }
    assert(s@ =~= v@);
    s
}

/// Whether two texts are the same.
pub(crate) fn same(a: &str, b: &str) -> (res: bool)
    ensures
        res == (a@ == b@),
{
    a.to_owned() == b.to_owned()
}

/// Whether a text starts with another.
pub(crate) fn starts_with(s: &str, prefix: &str) -> (res: bool)
    ensures
        res == (s@.len() >= prefix@.len() && s@.take(prefix@.len() as int) == prefix@),
{
    let v = chars_of(s);
    let p = chars_of(prefix);
    if v.len() < p.len() {
        return false;
    }
    let mut i: usize = 0;
    while i < p.len()
        invariant
            i <= p.len() <= v.len(),
            v@ == s@,
            p@ == prefix@,
            forall|k: int| 0 <= k < i ==> v@[k] == p@[k],
        decreases p.len() - i,
    {
        if v[i] != p[i] {
            assert(s@.take(p@.len() as int)[i as int] != p@[i as int]);
            return false;
        }
        i = i + 1;
    }
    assert(s@.take(prefix@.len() as int) =~= prefix@);
    true
}

/// The character of a decimal digit.
pub open spec fn digit(d: nat) -> char {
    (48 + d) as char
}

/// A number in decimal, without leading zeros.
pub open spec fn decimal(n: nat) -> Seq<char>
    decreases n,
{
    if n < 10 {
        seq![digit(n)]
    } else {
        decimal(n / 10).push(digit(n % 10))
    }
}

/// Appends a number in decimal.
pub(crate) fn push_decimal(s: &mut String, v: u64)
    ensures
        final(s)@ == old(s)@ + decimal(v as nat),
    decreases v,
{
    if v >= 10 {
        push_decimal(s, v / 10);
    }
    s.push((48 + (v % 10) as u8) as char);
    assert(s@ =~= old(s)@ + decimal(v as nat));
}

/// A number in decimal.
pub(crate) fn decimal_of(v: u64) -> (s: String)
    ensures
        s@ == decimal(v as nat),
{
    let mut s = String::new();
    push_decimal(&mut s, v);
    assert(s@ =~= decimal(v as nat));
    s
}

/// Whether a character has the Unicode property `White_Space`.
pub open spec fn is_space(c: char) -> bool {
    ||| 0x9 <= c as u32 <= 0xd
    ||| c as u32 == 0x20
    ||| c as u32 == 0x85
    ||| c as u32 == 0xa0
    ||| c as u32 == 0x1680
    ||| 0x2000 <= c as u32 <= 0x200a
    ||| c as u32 == 0x2028
    ||| c as u32 == 0x2029
    ||| c as u32 == 0x202f
    ||| c as u32 == 0x205f
    ||| c as u32 == 0x3000
}

fn space(c: char) -> (res: bool)
    ensures
        res == is_space(c),
{
    let v: u32 = c as u32;
    (0x9 <= v && v <= 0xd) || v == 0x20 || v == 0x85 || v == 0xa0 || v == 0x1680 || (0x2000 <= v && v
        <= 0x200a) || v == 0x2028 || v == 0x2029 || v == 0x202f || v == 0x205f || v == 0x3000
}

/// A text without the white space in front of it.
pub open spec fn trim_start(s: Seq<char>) -> Seq<char>
    decreases s.len(),
{
    if s.len() > 0 && is_space(s[0]) {
        trim_start(s.skip(1))
    } else {
        s
    }
}

/// A text without the white space behind it.
pub open spec fn trim_end(s: Seq<char>) -> Seq<char>
    decreases s.len(),
{
    if s.len() > 0 && is_space(s.last()) {
        trim_end(s.drop_last())
    } else {
        s
    }
}

/// A text without the white space around it.
pub open spec fn trimmed(s: Seq<char>) -> Seq<char> {
    trim_end(trim_start(s))
}

/// A text without white space at either end is its own trimmed form.
pub proof fn lemma_trimmed_as_is(s: Seq<char>)
    requires
        s.len() > 0,
        !is_space(s[0]),
        !is_space(s.last()),
    ensures
        trimmed(s) == s,
{
}

/// What is left of a text without the white space around it was in the text.
pub proof fn lemma_trimmed_contains(s: Seq<char>, c: char)
    requires
        trimmed(s).contains(c),
    ensures
        s.contains(c),
    decreases s.len(),
{
    if s.len() > 0 && is_space(s[0]) {
        lemma_trimmed_contains(s.skip(1), c);
        let k = choose|k: int| 0 <= k < s.skip(1).len() && s.skip(1)[k] == c;
        assert(s[k + 1] == c);
    } else if s.len() > 0 && is_space(s.last()) {
        let d = s.drop_last();
        if d.len() > 0 {
            assert(d[0] == s[0]);
        }
        lemma_trimmed_contains(d, c);
        let k = choose|k: int| 0 <= k < d.len() && d[k] == c;
        assert(s[k] == c);
    }
}

/// The text without the white space around it.
pub(crate) fn trim(s: &str) -> (res: String)
    ensures
        res@ == trimmed(s@),
{
    let v = chars_of(s);
    let (from, to) = trim_bounds(v.as_slice(), 0, v.len());
    assert(v@.subrange(0, v@.len() as int) =~= s@);
    string_of(vstd::slice::slice_subrange(v.as_slice(), from, to))
}

/// Where the piece of `v` from `lo` to `hi`, without the white space around it, begins and ends.
pub(crate) fn trim_bounds(v: &[char], lo: usize, hi: usize) -> (res: (usize, usize))
    requires
        lo <= hi <= v@.len(),
    ensures
        lo <= res.0 <= res.1 <= hi,
        v@.subrange(res.0 as int, res.1 as int) == trimmed(v@.subrange(lo as int, hi as int)),
{
    let mut from: usize = lo;
    while from < hi && space(v[from])
        invariant
            lo <= from <= hi <= v@.len(),
            trim_start(v@.subrange(from as int, hi as int)) == trim_start(
                v@.subrange(lo as int, hi as int),
            ),
        decreases hi - from,
    {
        assert(v@.subrange(from as int, hi as int).skip(1) =~= v@.subrange(from + 1, hi as int));
        from = from + 1;
    }
    let mut to: usize = hi;
    while from < to && space(v[to - 1])
        invariant
            from <= to <= hi <= v@.len(),
            trim_end(v@.subrange(from as int, to as int)) == trim_end(
                v@.subrange(from as int, hi as int),
            ),
        decreases to - from,
    {
        assert(v@.subrange(from as int, to as int).drop_last() =~= v@.subrange(
            from as int,
            to - 1,
        ));
        to = to - 1;
    }
    (from, to)
}

/// The texts of a list.
pub open spec fn views(v: Seq<String>) -> Seq<Seq<char>> {
    v.map_values(|s: String| s@)
}

/// Appends a text to a list.
pub(crate) fn push_text(v: &mut Vec<String>, s: &str)
    ensures
        views(final(v)@) == views(old(v)@).push(s@),
{
    v.push(s.to_owned());
    assert(views(v@) =~= views(old(v)@).push(s@));
}

/// Whether a text is in a list.
pub(crate) fn list_contains(v: &Vec<String>, s: &str) -> (res: bool)
    ensures
        res == views(v@).contains(s@),
{
    let ghost all = views(v@);
    let mut i: usize = 0;
    while i < v.len()
        invariant
            i <= v.len(),
            all == views(v@),
            forall|k: int| 0 <= k < i ==> all[k] != s@,
        decreases v.len() - i,
    {
        assert(all[i as int] == v@[i as int]@);
        if same(v[i].as_str(), s) {
            return true;
        }
        i = i + 1;
    }
    false
}

/// Texts, with `sep` between each two.
pub open spec fn joined(parts: Seq<Seq<char>>, sep: Seq<char>) -> Seq<char>
    decreases parts.len(),
{
    if parts.len() == 0 {
        Seq::empty()
    } else if parts.len() == 1 {
        parts[0]
    } else {
        joined(parts.drop_last(), sep) + sep + parts.last()
    }
}

/// The texts of a list, with `sep` between each two.
pub(crate) fn join(parts: &Vec<String>, sep: &str) -> (res: String)
    ensures
        res@ == joined(views(parts@), sep@),
{
    let ghost v = views(parts@);
    let mut out = String::new();
    let mut i: usize = 0;
    assert(v.take(0) =~= Seq::<Seq<char>>::empty());
    while i < parts.len()
        invariant
            i <= parts.len(),
            v == views(parts@),
            out@ == joined(v.take(i as int), sep@),
        decreases parts.len() - i,
    {
        if i > 0 {
            out.append(sep);
        }
        out.append(parts[i].as_str());
        proof {
            assert(v.take(i + 1).drop_last() =~= v.take(i as int));
            assert(v.take(i + 1).last() == parts@[i as int]@);
            if i == 0 {
                assert(out@ =~= v.take(1)[0]);
            } else {
                assert(out@ =~= joined(v.take(i as int), sep@) + sep@ + v[i as int]);
            }
        }
        i = i + 1;
    }
    assert(v.take(i as int) =~= v);
    out
}

/// Whether one text comes before another: at the first character in which they differ, or because
/// it is a prefix of it.
pub open spec fn less(a: Seq<char>, b: Seq<char>) -> bool
    decreases a.len(),
{
    if b.len() == 0 {
        false
    } else if a.len() == 0 {
        true
    } else if a[0] != b[0] {
        a[0] < b[0]
    } else {
        less(a.skip(1), b.skip(1))
    }
}

/// Whether no text of a list comes before an earlier one.
pub open spec fn sorted(v: Seq<Seq<char>>) -> bool {
    forall|i: int, j: int| #![trigger v[i], v[j]] 0 <= i < j < v.len() ==> !less(v[j], v[i])
}

pub proof fn lemma_less_transitive(a: Seq<char>, b: Seq<char>, c: Seq<char>)
    requires
        !less(b, a),
        !less(c, b),
    ensures
        !less(c, a),
    decreases a.len(),
{
    if a.len() > 0 && b.len() > 0 && c.len() > 0 && a[0] == b[0] && b[0] == c[0] {
        lemma_less_transitive(a.skip(1), b.skip(1), c.skip(1));
    }
}

pub proof fn lemma_less_asymmetric(a: Seq<char>, b: Seq<char>)
    ensures
        less(a, b) ==> !less(b, a),
        !less(a, b) && !less(b, a) ==> a == b,
    decreases a.len(),
{
    if a.len() > 0 && b.len() > 0 {
        if a[0] == b[0] {
            lemma_less_asymmetric(a.skip(1), b.skip(1));
            if !less(a, b) && !less(b, a) {
                assert(a =~= seq![a[0]] + a.skip(1));
                assert(b =~= seq![b[0]] + b.skip(1));
            }
        }
    } else if a.len() == 0 && b.len() == 0 {
        assert(a =~= b);
    }
}

/// Whether one text comes before another.
pub(crate) fn before(a: &str, b: &str) -> (res: bool)
    ensures
        res == less(a@, b@),
{
    let x = chars_of(a);
    let y = chars_of(b);
    let mut i: usize = 0;
    assert(a@.skip(0) =~= a@ && b@.skip(0) =~= b@);
    while i < x.len() && i < y.len() && x[i] == y[i]
        invariant
            i <= x.len(),
            i <= y.len(),
            x@ == a@,
            y@ == b@,
            less(a@, b@) == less(a@.skip(i as int), b@.skip(i as int)),
        decreases x.len() - i,
    {
        assert(a@.skip(i as int).skip(1) =~= a@.skip(i + 1));
        assert(b@.skip(i as int).skip(1) =~= b@.skip(i + 1));
        i = i + 1;
    }
    if i >= y.len() {
        false
    } else if i >= x.len() {
        true
    } else {
        assert(a@.skip(i as int)[0] == x@[i as int]);
        assert(b@.skip(i as int)[0] == y@[i as int]);
        x[i] < y[i]
    }
}

/// Puts a text into a sorted list, at its place.
pub(crate) fn insert_sorted(v: &mut Vec<String>, s: String)
    requires
        sorted(views(old(v)@)),
    ensures
        sorted(views(final(v)@)),
        views(final(v)@).to_multiset() == views(old(v)@).to_multiset().insert(s@),
{
    let ghost w = views(v@);
    let mut i: usize = 0;
    while i < v.len() && !before(s.as_str(), v[i].as_str())
        invariant
            i <= v.len(),
            w == views(v@),
            v@ == old(v)@,
            forall|j: int| 0 <= j < i ==> !less(s@, #[trigger] w[j]),
        decreases v.len() - i,
    {
        assert(w[i as int] == v@[i as int]@);
        i = i + 1;
    }
    let ghost text = s@;
    v.insert(i, s);
    proof {
        let z = views(v@);
        assert(z =~= w.insert(i as int, text));
        vstd::seq_lib::to_multiset_insert(w, i as int, text);
        if i < w.len() {
            assert(w[i as int] == old(v)@[i as int]@);
            assert(less(text, w[i as int]));
        }
        assert forall|a: int, b: int| #![trigger z[a], z[b]] 0 <= a < b < z.len() implies !less(
            z[b],
            z[a],
        ) by {
            if a < i && b == i {
                assert(z[a] == w[a]);
            } else if a == i {
                assert(z[b] == w[b - 1]);
                lemma_less_asymmetric(text, w[i as int]);
                if b - 1 > i {
                    assert(!less(w[b - 1], w[i as int]));
                    lemma_less_transitive(text, w[i as int], w[b - 1]);
                }
            } else {
                let c = if a < i { a } else { a - 1 };
                let d = if b < i { b } else { b - 1 };
                assert(z[a] == w[c] && z[b] == w[d]);
            }
        }
    }
}

/// A text, filled up with blanks to `n` characters.
pub open spec fn padded(s: Seq<char>, n: nat) -> Seq<char> {
    s + Seq::new(
        if s.len() < n {
            (n - s.len()) as nat
        } else {
            0
        },
        |i: int| ' ',
    )
}

/// Appends a text, filled up with blanks to `n` characters.
pub(crate) fn push_padded(out: &mut String, s: &str, n: usize)
    ensures
        final(out)@ == old(out)@ + padded(s@, n as nat),
{
    out.append(s);
    let mut len: usize = s.unicode_len();
    let ghost from = len as int;
    assert(out@ =~= old(out)@ + s@ + Seq::new(0, |i: int| ' '));
    while len < n
        invariant
            s@.len() == from,
            from <= len,
            from < n ==> len <= n,
            from >= n ==> len == from,
            out@ == old(out)@ + s@ + Seq::new((len - from) as nat, |i: int| ' '),
        decreases n - len,
    {
        out.push(' ');
        len = len + 1;
        assert(out@ =~= old(out)@ + s@ + Seq::new((len - from) as nat, |i: int| ' '));
    }
    assert(out@ =~= old(out)@ + padded(s@, n as nat));
}

/// A text with four blanks behind each line break.
pub open spec fn indented(s: Seq<char>) -> Seq<char>
    decreases s.len(),
{
    if s.len() == 0 {
        Seq::empty()
    } else if s.last() == '\n' {
        indented(s.drop_last()) + "\n    "@
    } else {
        indented(s.drop_last()).push(s.last())
    }
}

/// Appends a text with four blanks behind each line break.
pub(crate) fn push_indented(out: &mut String, s: &str)
    ensures
        final(out)@ == old(out)@ + indented(s@),
{
    let v = chars_of(s);
    let mut i: usize = 0;
    assert(out@ =~= old(out)@ + indented(s@.take(0)));
    while i < v.len()
        invariant
            i <= v.len(),
            v@ == s@,
            out@ == old(out)@ + indented(s@.take(i as int)),
        decreases v.len() - i,
    {
        let ghost before = out@;
        assert(s@.take(i + 1).drop_last() =~= s@.take(i as int));
        if v[i] == '\n' {
            out.append("\n    ");
        } else {
            out.push(v[i]);
        }
        assert(out@ =~= old(out)@ + indented(s@.take(i + 1)));
        i = i + 1;
    }
    assert(s@.take(i as int) =~= s@);
}

// ---- what a text holds ----

/// Whether `part` stands in `s` at `i`.
pub open spec fn stands_at(s: Seq<char>, i: int, part: Seq<char>) -> bool {
    0 <= i && i + part.len() <= s.len() && s.subrange(i, i + part.len()) == part
}

/// Whether `part` stands anywhere in `s`.
pub open spec fn holds(s: Seq<char>, part: Seq<char>) -> bool {
    exists|i: int| stands_at(s, i, part)
}

/// Whether none of the first `n` characters of `s` is `c`.
pub open spec fn free_of(s: Seq<char>, c: char, n: nat) -> bool
    decreases n,
{
    n == 0 || (s[n - 1] != c && free_of(s, c, (n - 1) as nat))
}

pub(crate) proof fn lemma_free_of(s: Seq<char>, c: char, n: nat)
    requires
        free_of(s, c, n),
    ensures
        forall|i: int| 0 <= i < n ==> #[trigger] s[i] != c,
    decreases n,
{
    if n > 0 {
        lemma_free_of(s, c, (n - 1) as nat);
    }
}

pub(crate) proof fn lemma_stands_at(s: Seq<char>, i: int, part: Seq<char>)
    requires
        stands_at(s, i, part),
    ensures
        forall|k: int| 0 <= k < part.len() ==> s[i + k] == #[trigger] part[k],
{
    assert forall|k: int| 0 <= k < part.len() implies s[i + k] == #[trigger] part[k] by {
        assert(s.subrange(i, i + part.len())[k] == s[i + k]);
    }
}

/// What stands in one of two texts stands in both together.
pub(crate) proof fn lemma_holds_in_either(a: Seq<char>, b: Seq<char>, part: Seq<char>)
    ensures
        holds(a, part) || holds(b, part) ==> holds(a + b, part),
{
    if holds(a, part) {
        let i = choose|i: int| stands_at(a, i, part);
        assert((a + b).subrange(i, i + part.len()) =~= a.subrange(i, i + part.len()));
        assert(stands_at(a + b, i, part));
    }
    if holds(b, part) {
        let i = choose|i: int| stands_at(b, i, part);
        let j = i + a.len();
        assert((a + b).subrange(j, j + part.len()) =~= b.subrange(i, i + part.len()));
        assert(stands_at(a + b, j, part));
    }
}

/// Where the first text ends, or the second begins, with a character that is not in `part`, it cannot
/// stand across.
pub(crate) proof fn lemma_holds_split(a: Seq<char>, b: Seq<char>, part: Seq<char>)
    requires
        a.len() == 0 || !part.contains(a.last()) || b.len() == 0 || !part.contains(b[0]),
    ensures
        holds(a + b, part) == (holds(a, part) || holds(b, part)),
{
    lemma_holds_in_either(a, b, part);
    if holds(a + b, part) {
        let i = choose|i: int| stands_at(a + b, i, part);
        lemma_stands_at(a + b, i, part);
        let n = part.len() as int;
        if i + n <= a.len() {
            assert(a.subrange(i, i + n) =~= (a + b).subrange(i, i + n));
            assert(stands_at(a, i, part));
        } else if i >= a.len() {
            let j = i - a.len();
            assert(b.subrange(j, j + n) =~= (a + b).subrange(i, i + n));
            assert(stands_at(b, j, part));
        } else {
            let k = a.len() - i;
            assert(part[k - 1] == a.last());
            assert(part[k] == b[0]);
            assert(false);
        }
    }
}

/// What begins with a character that the first text does not have stands in the second.
pub(crate) proof fn lemma_holds_behind(a: Seq<char>, b: Seq<char>, part: Seq<char>)
    requires
        part.len() > 0,
        forall|i: int| 0 <= i < a.len() ==> #[trigger] a[i] != part[0],
    ensures
        holds(a + b, part) == holds(b, part),
{
    lemma_holds_in_either(a, b, part);
    if holds(a + b, part) {
        let i = choose|i: int| stands_at(a + b, i, part);
        lemma_stands_at(a + b, i, part);
        assert((a + b)[i + 0] == part[0]);
        if i < a.len() {
            assert(a[i] == part[0]);
        }
        let j = i - a.len();
        assert(b.subrange(j, j + part.len()) =~= (a + b).subrange(i, i + part.len()));
        assert(stands_at(b, j, part));
    }
}

/// A phrase: it neither begins nor ends with a blank, and has no two blanks in a row.
pub open spec fn is_phrase(part: Seq<char>) -> bool {
    &&& part.len() > 0
    &&& part[0] != ' '
    &&& part.last() != ' '
    &&& forall|i: int| 0 <= i < part.len() - 1 ==> !(#[trigger] part[i] == ' ' && part[i + 1] == ' ')
}

/// A phrase does not stand across two blanks or more.
pub(crate) proof fn lemma_holds_across_blanks(
    a: Seq<char>,
    gap: Seq<char>,
    b: Seq<char>,
    part: Seq<char>,
)
    requires
        is_phrase(part),
        gap.len() >= 2,
        forall|i: int| 0 <= i < gap.len() ==> #[trigger] gap[i] == ' ',
        holds(a + gap + b, part),
    ensures
        holds(a, part) || holds(b, part),
{
    let s = a + gap + b;
    let i = choose|i: int| stands_at(s, i, part);
    lemma_stands_at(s, i, part);
    let n = part.len() as int;
    let from = a.len() as int;
    let to = from + gap.len();
    if i + n <= from {
        assert(a.subrange(i, i + n) =~= s.subrange(i, i + n));
        assert(stands_at(a, i, part));
    } else if i >= to {
        assert(b.subrange(i - to, i - to + n) =~= s.subrange(i, i + n));
        assert(stands_at(b, i - to, part));
    } else if i >= from {
        assert(s[i + 0] == part[0]);
        assert(s[i] == gap[i - from]);
    } else if i + n <= to {
        assert(s[i + (n - 1)] == part[n - 1]);
        assert(s[i + n - 1] == gap[i + n - 1 - from]);
    } else {
        let k = from - i;
        assert(s[i + k] == part[k]);
        assert(s[i + (k + 1)] == part[k + 1]);
        assert(s[from] == gap[0] && s[from + 1] == gap[1]);
    }
}

proof fn lemma_indented_line(a: Seq<char>, line: Seq<char>)
    requires
        !line.contains('\n'),
    ensures
        indented(a + line) == indented(a) + line,
    decreases line.len(),
{
    if line.len() == 0 {
        assert(a + line =~= a);
    } else {
        let before = line.drop_last();
        assert(line[line.len() - 1] != '\n');
        assert forall|i: int| 0 <= i < before.len() implies before[i] != '\n' by {
            assert(line[i] != '\n');
        }
        lemma_indented_line(a, before);
        assert((a + line).drop_last() =~= a + before);
        assert((indented(a) + before).push(line.last()) =~= indented(a) + line);
    }
}

/// A text of one line is not changed by indenting.
pub(crate) proof fn lemma_indented_as_is(s: Seq<char>)
    requires
        !s.contains('\n'),
    ensures
        indented(s) == s,
{
    lemma_indented_line(Seq::empty(), s);
    assert(Seq::<char>::empty() + s =~= s);
}

/// What does not begin with a blank, and has no line break in it, is not brought about by indenting.
pub(crate) proof fn lemma_holds_indented(s: Seq<char>, part: Seq<char>)
    requires
        part.len() > 0,
        part[0] != ' ',
        !part.contains('\n'),
        holds(indented(s), part),
    ensures
        holds(s, part),
    decreases s.len(),
{
    s.index_of_last_ensures('\n');
    if s.contains('\n') {
        let k = s.index_of_last('\n').unwrap();
        let a = s.take(k);
        let line = s.skip(k + 1);
        let br = seq!['\n'];
        assert(s =~= a + (br + line));
        assert((a + br).drop_last() =~= a);
        assert forall|i: int| 0 <= i < line.len() implies line[i] != '\n' by {
            assert(s[k + 1 + i] != '\n');
        }
        lemma_indented_line(a + br, line);
        assert((a + br) + line =~= s);
        reveal_strlit("\n    ");
        let gap = "\n    "@;
        assert(indented(s) =~= indented(a) + (gap + line));
        lemma_holds_split(indented(a), gap + line, part);
        assert forall|i: int| 0 <= i < gap.len() implies #[trigger] gap[i] != part[0] by {
            assert(part.contains(part[0]));
        }
        lemma_holds_behind(gap, line, part);
        if holds(indented(a), part) {
            lemma_holds_indented(a, part);
        }
        lemma_holds_in_either(br, line, part);
        lemma_holds_in_either(a, br + line, part);
    } else {
        lemma_indented_as_is(s);
    }
}

// ---- laws ----

/// The number that decimal digits stand for.
pub open spec fn decimal_value(s: Seq<char>) -> int
    decreases s.len(),
{
    if s.len() == 0 {
        0
    } else {
        decimal_value(s.drop_last()) * 10 + (s.last() as u32 - 48)
    }
}

/// A number in decimal consists of digits, stands for that number, and has no zero in front unless it
/// is one.
pub proof fn decimals_stand_for_their_number(n: nat)
    ensures
        decimal_value(decimal(n)) == n,
        decimal(n).len() > 0,
        forall|i: int| 0 <= i < decimal(n).len() ==> '0' <= #[trigger] decimal(n)[i] <= '9',
        decimal(n)[0] == '0' ==> n == 0 && decimal(n).len() == 1,
    decreases n,
{
    reveal_with_fuel(decimal_value, 2);
    if n >= 10 {
        decimals_stand_for_their_number(n / 10);
        assert(decimal(n).drop_last() =~= decimal(n / 10));
        assert(decimal(n)[0] == decimal(n / 10)[0]);
    } else {
        assert(decimal(n).drop_last() =~= Seq::<char>::empty());
    }
}

/// The blank, the tabulator and the line breaks are white space, and so are the blanks of other
/// scripts; letters, digits and the signs that stand in configuration files are not, nor is anything
/// else.
pub proof fn blanks_and_breaks_are_white_space(c: char)
    ensures
        is_space(c) <==> seq![
            0x09u32, 0x0a, 0x0b, 0x0c, 0x0d, 0x20, 0x85, 0xa0, 0x1680, 0x2000, 0x2001, 0x2002, 0x2003,
            0x2004, 0x2005, 0x2006, 0x2007, 0x2008, 0x2009, 0x200a, 0x2028, 0x2029, 0x202f, 0x205f,
            0x3000,
        ].contains(c as u32),
        c == ' ' || c == '\t' || c == '\n' || c == '\r' ==> is_space(c),
        '!' <= c <= '~' ==> !is_space(c),
{
    let all = seq![
        0x09u32, 0x0a, 0x0b, 0x0c, 0x0d, 0x20, 0x85, 0xa0, 0x1680, 0x2000, 0x2001, 0x2002, 0x2003,
        0x2004, 0x2005, 0x2006, 0x2007, 0x2008, 0x2009, 0x200a, 0x2028, 0x2029, 0x202f, 0x205f,
        0x3000,
    ];
    let v = c as u32;
    if is_space(c) {
        let i: int = if v <= 0x0d {
            v - 0x09
        } else if v == 0x20 {
            5
        } else if v == 0x85 {
            6
        } else if v == 0xa0 {
            7
        } else if v == 0x1680 {
            8
        } else if v <= 0x200a {
            v - 0x2000 + 9
        } else if v == 0x2028 {
            20
        } else if v == 0x2029 {
            21
        } else if v == 0x202f {
            22
        } else if v == 0x205f {
            23
        } else {
            24
        };
        assert(all[i] == v);
    }
}

/// What is trimmed is a piece of the text that neither begins nor ends with white space, and around
/// which there is nothing but white space.
pub proof fn only_white_space_is_trimmed(s: Seq<char>) -> (cut: (int, int))
    ensures
        0 <= cut.0 <= cut.1 <= s.len(),
        trimmed(s) == s.subrange(cut.0, cut.1),
        forall|i: int| 0 <= i < cut.0 || cut.1 <= i < s.len() ==> is_space(#[trigger] s[i]),
        cut.0 < cut.1 ==> !is_space(s[cut.0]) && !is_space(s[cut.1 - 1]),
    decreases s.len(),
{
    if s.len() > 0 && is_space(s[0]) {
        let t = s.skip(1);
        let c = only_white_space_is_trimmed(t);
        assert(t.subrange(c.0, c.1) =~= s.subrange(c.0 + 1, c.1 + 1));
        assert forall|i: int| 0 <= i < c.0 + 1 || c.1 + 1 <= i < s.len() implies is_space(
            #[trigger] s[i],
        ) by {
            if i > 0 {
                assert(s[i] == t[i - 1]);
            }
        }
        (c.0 + 1, c.1 + 1)
    } else if s.len() > 0 && is_space(s.last()) {
        let t = s.drop_last();
        if t.len() > 0 {
            assert(t[0] == s[0]);
        }
        let c = only_white_space_is_trimmed(t);
        assert(t.subrange(c.0, c.1) =~= s.subrange(c.0, c.1));
        assert forall|i: int| 0 <= i < c.0 || c.1 <= i < s.len() implies is_space(
            #[trigger] s[i],
        ) by {
            if i < t.len() {
                assert(s[i] == t[i]);
            }
        }
        c
    } else {
        assert(s.subrange(0, s.len() as int) =~= s);
        (0, s.len() as int)
    }
}

/// A text is filled up behind, with blanks alone, and to at least its column.
pub proof fn padding_goes_behind(s: Seq<char>, n: nat)
    ensures
        padded(s, n).take(s.len() as int) == s,
        padded(s, n).len() == if s.len() < n {
            n
        } else {
            s.len()
        },
        forall|i: int| s.len() <= i < padded(s, n).len() ==> #[trigger] padded(s, n)[i] == ' ',
{
    assert(padded(s, n).take(s.len() as int) =~= s);
}

/// Indenting two texts with a line break between them indents each, and puts four blanks behind the
/// break; a text of one line stays as it is.
pub proof fn indenting_puts_blanks_behind_breaks(a: Seq<char>, b: Seq<char>)
    ensures
        indented(a + seq!['\n'] + b) == indented(a) + seq!['\n', ' ', ' ', ' ', ' '] + indented(b),
        !a.contains('\n') ==> indented(a) == a,
    decreases b.len(),
{
    reveal_strlit("\n    ");
    if !a.contains('\n') {
        lemma_indented_as_is(a);
    }
    let whole = a + seq!['\n'] + b;
    if b.len() == 0 {
        assert(whole.drop_last() =~= a);
        assert(indented(whole) =~= indented(a) + seq!['\n', ' ', ' ', ' ', ' '] + indented(b));
    } else {
        assert(whole.drop_last() =~= a + seq!['\n'] + b.drop_last());
        indenting_puts_blanks_behind_breaks(a, b.drop_last());
        assert(indented(whole) =~= indented(a) + seq!['\n', ' ', ' ', ' ', ' '] + indented(b));
    }
}

/// Texts are ordered by the first character in which they differ; one that is the beginning of
/// another comes before it.
pub proof fn the_first_difference_decides(a: Seq<char>, b: Seq<char>, k: int)
    requires
        0 <= k <= a.len(),
        k <= b.len(),
        a.take(k) == b.take(k),
    ensures
        k < a.len() && k < b.len() && a[k] != b[k] ==> (less(a, b) <==> a[k] < b[k]),
        k == a.len() && k < b.len() ==> less(a, b),
        k == b.len() ==> !less(a, b),
    decreases k,
{
    if k > 0 {
        assert(a[0] == a.take(k)[0] && b[0] == b.take(k)[0]);
        assert(k < a.len() ==> a.skip(1)[k - 1] == a[k]);
        assert(k < b.len() ==> b.skip(1)[k - 1] == b[k]);
        assert(a.skip(1).take(k - 1) =~= a.take(k).skip(1));
        assert(b.skip(1).take(k - 1) =~= b.take(k).skip(1));
        the_first_difference_decides(a.skip(1), b.skip(1), k - 1);
    }
}

/// Two texts, with a separator between them, and more of them in the same way.
pub proof fn separators_stand_between(parts: Seq<Seq<char>>, last: Seq<char>, sep: Seq<char>)
    ensures
        joined(Seq::empty(), sep).len() == 0,
        joined(seq![last], sep) == last,
        parts.len() > 0 ==> joined(parts.push(last), sep) == joined(parts, sep) + sep + last,
{
    if parts.len() > 0 {
        assert(parts.push(last).drop_last() =~= parts);
    }
}

/// The longest text that bytes begin with is text, and no longer piece of their first `k` is.
pub proof fn the_longest_text_in_front_is_found(b: Seq<u8>, k: int)
    requires
        0 <= k <= b.len(),
    ensures
        0 <= longest_text(b, k) <= k,
        valid_utf8(b.take(longest_text(b, k))),
        forall|i: int| longest_text(b, k) < i <= k ==> !valid_utf8(#[trigger] b.take(i)),
    decreases k,
{
    if k > 0 && !valid_utf8(b.take(k)) {
        the_longest_text_in_front_is_found(b, k - 1);
    } else if k == 0 {
        assert(b.take(0).len() == 0);
    }
}

/// A list is in order where no text in it comes before one that stands in front of it.
pub proof fn a_list_in_order_has_nothing_misplaced(v: Seq<Seq<char>>)
    ensures
        sorted(v) <==> forall|i: int, j: int|
            #![trigger v[i], v[j]]
            0 <= i < j < v.len() ==> !less(v[j], v[i]),
{
}

/// A list of texts is seen text by text.
pub proof fn texts_are_seen_as_they_are(v: Seq<String>, i: int)
    ensures
        views(v).len() == v.len(),
        0 <= i < v.len() ==> views(v)[i] == v[i]@,
{
}

proof fn lemma_trim_start_before(s: Seq<char>, c: char)
    requires
        is_space(c),
    ensures
        trim_start(s).len() == 0 ==> trim_start(s.push(c)).len() == 0,
        trim_start(s).len() > 0 ==> trim_start(s.push(c)) == trim_start(s).push(c),
    decreases s.len(),
{
    let t = s.push(c);
    if s.len() == 0 {
        assert(t[0] == c);
        assert(trim_start(t) == trim_start(t.skip(1)));
        assert(trim_start(t.skip(1)) == t.skip(1));
    } else {
        assert(t[0] == s[0]);
        if is_space(s[0]) {
            lemma_trim_start_before(s.skip(1), c);
            assert(t.skip(1) =~= s.skip(1).push(c));
        }
    }
}

/// White space in front of a text or behind it makes no difference once it is trimmed.
pub proof fn white_space_around_makes_no_difference(s: Seq<char>, c: char)
    requires
        is_space(c),
    ensures
        trimmed(seq![c] + s) == trimmed(s),
        trimmed(s + seq![c]) == trimmed(s),
{
    let a = seq![c] + s;
    assert(a[0] == c);
    assert(a.skip(1) =~= s);
    assert(s + seq![c] =~= s.push(c));
    lemma_trim_start_before(s, c);
    let t = trim_start(s);
    if t.len() > 0 {
        assert(t.push(c).drop_last() =~= t);
    } else {
        assert(trim_start(s.push(c)) =~= t);
    }
}

} // verus!
