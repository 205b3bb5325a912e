//! Character-level text operations shared by the other modules.
//!
//! Text is modelled as the sequence of its characters. The operations below
//! are the ones the decisions of this crate are phrased in: comparison,
//! concatenation, decimal rendering, search and replacement.

use vstd::prelude::*;
use vstd::string::*;

verus! {

/// `String::push` appends one character at the end of the text.
pub assume_specification[ String::push ](s: &mut String, c: char)
    ensures
        final(s)@ == old(s)@.push(c),
;

// ---------------------------------------------------------- comparison ----

/// A text of no characters is the empty one.
pub proof fn empty_is(s: Seq<char>)
    ensures
        s.len() == 0 <==> s == Seq::<char>::empty(),
{
    if s.len() == 0 {
        assert(s =~= Seq::<char>::empty());
    }
}

/// Whether two texts hold the same characters.
pub fn same(a: &str, b: &str) -> (r: bool)
    ensures
        r == (a@ == b@),
{
    a.to_owned() == b.to_owned()
}

/// The characters of an optional text.
pub open spec fn opt_view(o: Option<String>) -> Option<Seq<char>> {
    match o {
        Some(s) => Some(s@),
        None => None,
    }
}

/// The characters of each text of a list, in order.
pub open spec fn views(v: Seq<String>) -> Seq<Seq<char>> {
    Seq::new(v.len(), |i: int| v[i]@)
}

/// Whether a list of texts holds `x`.
pub open spec fn lists(v: Seq<String>, x: Seq<char>) -> bool {
    exists|i: int| 0 <= i < v.len() && #[trigger] v[i]@ == x
}

/// Whether a list of texts holds `x`.
pub fn list_holds(v: &Vec<String>, x: &str) -> (r: bool)
    ensures
        r == lists(v@, x@),
{
    let mut i: usize = 0;
    while i < v.len()
        invariant
            i <= v.len(),
            forall|j: int| 0 <= j < i ==> #[trigger] v@[j]@ != x@,
        decreases v.len() - i,
    {
        if same(v[i].as_str(), x) {
            return true;
        }
        i = i + 1;
    }
    false
}

/// Lexicographic order by character, the order of the texts' UTF-8 bytes.
pub open spec fn before(a: Seq<char>, b: Seq<char>) -> bool
    decreases a.len(),
{
    if b.len() == 0 {
        false
    } else if a.len() == 0 {
        true
    } else if a[0] != b[0] {
        (a[0] as int) < (b[0] as int)
    } else {
        before(a.skip(1), b.skip(1))
    }
}

pub proof fn before_irreflexive(a: Seq<char>)
    ensures
        !before(a, a),
    decreases a.len(),
{
    if a.len() > 0 {
        before_irreflexive(a.skip(1));
    }
}

pub proof fn before_transitive(a: Seq<char>, b: Seq<char>, c: Seq<char>)
    requires
        before(a, b),
        before(b, c),
    ensures
        before(a, c),
    decreases a.len(),
{
    if a.len() > 0 && b.len() > 0 && c.len() > 0 && a[0] == b[0] && b[0] == c[0] {
        before_transitive(a.skip(1), b.skip(1), c.skip(1));
    }
}

pub proof fn before_total(a: Seq<char>, b: Seq<char>)
    ensures
        a == b || before(a, b) || before(b, a),
    decreases a.len(),
{
    if a.len() == 0 {
        if b.len() == 0 {
            assert(a =~= b);
        }
    } else if b.len() > 0 && a[0] == b[0] {
        before_total(a.skip(1), b.skip(1));
        if a.skip(1) == b.skip(1) {
            assert(a =~= seq![a[0]] + a.skip(1));
            assert(b =~= seq![b[0]] + b.skip(1));
        }
    }
}

/// Decides [`before`] on two character lists.
pub fn chars_before(a: &Vec<char>, b: &Vec<char>) -> (r: bool)
    ensures
        r == before(a@, b@),
{
    let mut i: usize = 0;
    proof {
        assert(a@.skip(0) =~= a@);
        assert(b@.skip(0) =~= b@);
    }
    while i < a.len() && i < b.len() && a[i] == b[i]
        invariant
            i <= a.len(),
            i <= b.len(),
            before(a@, b@) == before(a@.skip(i as int), b@.skip(i as int)),
        decreases a.len() - i,
    {
        proof {
            assert(a@.skip(i as int).skip(1) =~= a@.skip(i + 1));
            assert(b@.skip(i as int).skip(1) =~= b@.skip(i + 1));
        }
        i = i + 1;
    }
    if i >= b.len() {
        false
    } else if i >= a.len() {
        true
    } else {
        a[i] < b[i]
    }
}

// -------------------------------------------------------- construction ----

/// Two texts in a row.
pub fn cat2(a: &str, b: &str) -> (r: String)
    ensures
        r@ == a@ + b@,
{
    let mut s = a.to_owned();
    s.append(b);
    s
}

/// Three texts in a row.
pub fn cat3(a: &str, b: &str, c: &str) -> (r: String)
    ensures
        r@ == a@ + b@ + c@,
{
    let mut s = cat2(a, b);
    s.append(c);
    s
}

/// Four texts in a row.
pub fn cat4(a: &str, b: &str, c: &str, d: &str) -> (r: String)
    ensures
        r@ == a@ + b@ + c@ + d@,
{
    let mut s = cat3(a, b, c);
    s.append(d);
    s
}

/// Five texts in a row.
pub fn cat5(a: &str, b: &str, c: &str, d: &str, e: &str) -> (r: String)
    ensures
        r@ == a@ + b@ + c@ + d@ + e@,
{
    let mut s = cat4(a, b, c, d);
    s.append(e);
    s
}

/// The character of one decimal digit.
pub open spec fn digit(d: nat) -> char {
    (d + 48) as char
}

/// The decimal rendering of a number, without leading zeros.
pub open spec fn decimal_of(n: nat) -> Seq<char>
    decreases n,
{
    if n < 10 {
        seq![digit(n)]
    } else {
        decimal_of(n / 10).push(digit(n % 10))
    }
}

/// The decimal rendering of a number.
pub fn decimal(n: u64) -> (r: String)
    ensures
        r@ == decimal_of(n as nat),
    decreases n,
{
    let d: u8 = (n % 10) as u8;
    let c: char = (48u8 + d) as char;
    if n < 10 {
        let mut s = String::new();
        s.push(c);
        assert(s@ =~= seq![digit(n as nat)]);
        s
    } else {
        let mut s = decimal(n / 10);
        s.push(c);
        s
    }
}

/// What `{:?}` renders for a text: the text between double quotes, with
/// quotes, backslashes and non-printing characters escaped.
pub uninterp spec fn quoted_text(s: Seq<char>) -> Seq<char>;

/// The `Debug` rendering of `str` in std. Claims only that the rendering is
/// determined by the text.
#[verifier::external_body]
pub(crate) fn quoted(s: &str) -> (r: String)
    ensures
        r@ == quoted_text(s@),
{
    format!("{s:?}")
}

// ----------------------------------------------------- characters apart ----

/// The characters of a text, in order.
pub fn chars_of(s: &str) -> (r: Vec<char>)
    ensures
        r@ == s@,
{
    let mut v: Vec<char> = Vec::new();
    for c in it: s.chars()
        invariant
            it.seq() == s@,
            v@ == s@.take(it.index() as int),
    {
        v.push(c);
    }
    v
}

/// The text made of `v[from..to]`.
pub fn text_of(v: &Vec<char>, from: usize, to: usize) -> (r: String)
    requires
        from <= to <= v.len(),
    ensures
        r@ == v@.subrange(from as int, to as int),
{
    let mut s = String::new();
    let mut i: usize = from;
    while i < to
        invariant
            from <= i <= to <= v.len(),
            s@ == v@.subrange(from as int, i as int),
        decreases to - i,
    {
        s.push(v[i]);
        proof {
            assert(v@.subrange(from as int, i + 1) =~= v@.subrange(from as int, i as int).push(
                v@[i as int],
            ));
        }
        i = i + 1;
    }
    s
}

/// The first `n` characters of a text, or all of it when it is shorter.
pub fn first_chars(s: &str, n: usize) -> (r: String)
    ensures
        r@ == if s@.len() <= n { s@ } else { s@.take(n as int) },
{
    let v = chars_of(s);
    if v.len() <= n {
        s.to_owned()
    } else {
        text_of(&v, 0, n)
    }
}

// --------------------------------------------------- search and replace ----

/// Whether `needle` stands in `hay` at position `i`.
pub open spec fn stands_at(hay: Seq<char>, needle: Seq<char>, i: int) -> bool {
    &&& 0 <= i
    &&& i + needle.len() <= hay.len()
    &&& hay.subrange(i, i + needle.len() as int) == needle
}

/// Whether `needle` occurs anywhere in `hay`.
pub open spec fn occurs(hay: Seq<char>, needle: Seq<char>) -> bool {
    exists|i: int| #[trigger] stands_at(hay, needle, i)
}

/// Decides [`stands_at`].
pub fn chars_stand_at(hay: &Vec<char>, needle: &Vec<char>, i: usize) -> (r: bool)
    requires
        i <= hay.len(),
    ensures
        r == stands_at(hay@, needle@, i as int),
{
    if needle.len() > hay.len() - i {
        return false;
    }
    let mut j: usize = 0;
    while j < needle.len()
        invariant
            j <= needle.len(),
            i + needle.len() <= hay.len(),
            forall|k: int| 0 <= k < j ==> hay@[i + k] == needle@[k],
        decreases needle.len() - j,
    {
        if hay[i + j] != needle[j] {
            proof {
                assert(hay@.subrange(i as int, i + needle.len())[j as int] == hay@[i + j]);
            }
            return false;
        }
        j = j + 1;
    }
    proof {
        assert(hay@.subrange(i as int, i + needle.len()) =~= needle@);
    }
    true
}

/// Decides [`occurs`].
pub fn contains(hay: &str, needle: &str) -> (r: bool)
    ensures
        r == occurs(hay@, needle@),
{
    let h = chars_of(hay);
    let n = chars_of(needle);
    if n.len() > h.len() {
        return false;
    }
    let last: usize = h.len() - n.len();
    let mut i: usize = 0;
    while i <= last
        invariant
            h@ == hay@,
            n@ == needle@,
            last + n.len() == h.len(),
            i <= last + 1,
            forall|k: int| 0 <= k < i ==> !#[trigger] stands_at(hay@, needle@, k),
        decreases last + 1 - i,
    {
        if chars_stand_at(&h, &n, i) {
            return true;
        }
        if i == last {
            proof {
                assert forall|k: int| !#[trigger] stands_at(hay@, needle@, k) by {
                    if stands_at(hay@, needle@, k) {
                        assert(k <= last);
                    }
                }
            }
            return false;
        }
        i = i + 1;
    }
    false
}

/// `by` between every two characters of `hay`, and at both ends.
pub open spec fn interleaved(hay: Seq<char>, by: Seq<char>) -> Seq<char>
    decreases hay.len(),
{
    if hay.len() == 0 {
        by
    } else {
        by + seq![hay[0]] + interleaved(hay.skip(1), by)
    }
}

/// `hay` with every occurrence of `needle` replaced by `by`: scanning from
/// the left, each match is taken whole before the scan goes on behind it. An
/// empty needle matches at every position.
pub open spec fn replaced(hay: Seq<char>, needle: Seq<char>, by: Seq<char>) -> Seq<char>
    decreases hay.len(),
{
    if needle.len() == 0 {
        interleaved(hay, by)
    } else if hay.len() == 0 {
        hay
    } else if stands_at(hay, needle, 0) {
        by + replaced(hay.skip(needle.len() as int), needle, by)
    } else {
        seq![hay[0]] + replaced(hay.skip(1), needle, by)
    }
}

/// A text without the needle is left as it is.
pub proof fn replaced_without_occurrence(hay: Seq<char>, needle: Seq<char>, by: Seq<char>)
    requires
        !occurs(hay, needle),
    ensures
        replaced(hay, needle, by) == hay,
    decreases hay.len(),
{
    if needle.len() == 0 {
        assert(hay.subrange(0, 0) =~= needle);
        assert(stands_at(hay, needle, 0));
    } else if hay.len() > 0 {
        let rest = hay.skip(1);
        assert forall|i: int| !#[trigger] stands_at(rest, needle, i) by {
            if stands_at(rest, needle, i) {
                assert(hay.subrange(i + 1, i + 1 + needle.len()) =~= rest.subrange(
                    i,
                    i + needle.len(),
                ));
                assert(stands_at(hay, needle, i + 1));
            }
        }
        replaced_without_occurrence(rest, needle, by);
        assert(seq![hay[0]] + rest =~= hay);
    }
}

fn interleave(hay: &Vec<char>, by: &str) -> (r: String)
    ensures
        r@ == interleaved(hay@, by@),
{
    let mut i: usize = hay.len();
    let mut tail = by.to_owned();
    proof {
        assert(hay@.skip(hay@.len() as int).len() == 0);
    }
    while i > 0
        invariant
            i <= hay.len(),
            tail@ == interleaved(hay@.skip(i as int), by@),
        decreases i,
    {
        i = i - 1;
        let mut next = by.to_owned();
        next.push(hay[i]);
        next.append(tail.as_str());
        proof {
            let rest = hay@.skip(i as int);
            assert(rest.skip(1) =~= hay@.skip(i + 1));
            assert(by@.push(hay@[i as int]) =~= by@ + seq![rest[0]]);
        }
        tail = next;
    }
    proof {
        assert(hay@.skip(0) =~= hay@);
    }
    tail
}

/// Replaces every occurrence of `needle`, as [`replaced`] says.
pub fn replace_all(hay: &str, needle: &str, by: &str) -> (r: String)
    ensures
        r@ == replaced(hay@, needle@, by@),
{
    let h = chars_of(hay);
    let n = chars_of(needle);
    if n.len() == 0 {
        return interleave(&h, by);
    }
    let mut out = String::new();
    let mut i: usize = 0;
    proof {
        assert(h@.skip(0) =~= h@);
        assert(out@ + replaced(h@, n@, by@) =~= replaced(h@, n@, by@));
    }
    while i < h.len()
        invariant
            h@ == hay@,
            n@ == needle@,
            n.len() > 0,
            i <= h.len(),
            out@ + replaced(h@.skip(i as int), n@, by@) == replaced(h@, n@, by@),
        decreases h.len() - i,
    {
        let ghost rest = h@.skip(i as int);
        let here = chars_stand_at(&h, &n, i);
        proof {
            assert(stands_at(rest, n@, 0) == stands_at(h@, n@, i as int)) by {
                if i + n@.len() <= h@.len() {
                    assert(rest.subrange(0, n@.len() as int) =~= h@.subrange(
                        i as int,
                        i + n@.len(),
                    ));
                }
            }
        }
        if here {
            let ghost before_out = out@;
            out.append(by);
            proof {
                assert(rest.skip(n@.len() as int) =~= h@.skip(i + n@.len()));
                assert(before_out + (by@ + replaced(h@.skip(i + n@.len()), n@, by@)) =~= out@
                    + replaced(h@.skip(i + n@.len()), n@, by@));
            }
            i = i + n.len();
        } else {
            let ghost before_out = out@;
            out.push(h[i]);
            proof {
                assert(rest.skip(1) =~= h@.skip(i + 1));
                assert(before_out + (seq![rest[0]] + replaced(h@.skip(i + 1), n@, by@)) =~= out@
                    + replaced(h@.skip(i + 1), n@, by@));
            }
            i = i + 1;
        }
    }
    proof {
        assert(h@.skip(i as int) =~= Seq::<char>::empty());
        assert(out@ + Seq::<char>::empty() =~= out@);
    }
    out
}

/// Whether `s` begins with `prefix`.
pub open spec fn begins(s: Seq<char>, prefix: Seq<char>) -> bool {
    stands_at(s, prefix, 0)
}

/// Decides [`begins`].
pub fn starts_with(s: &str, prefix: &str) -> (r: bool)
    ensures
        r == begins(s@, prefix@),
{
    let h = chars_of(s);
    let n = chars_of(prefix);
    chars_stand_at(&h, &n, 0)
}

/// The position of the first `c` in `s`, if there is one.
pub open spec fn first_index(s: Seq<char>, c: char) -> Option<int>
    decreases s.len(),
{
    if s.len() == 0 {
        None
    } else if s[0] == c {
        Some(0)
    } else {
        match first_index(s.skip(1), c) {
            Some(i) => Some(i + 1),
            None => None,
        }
    }
}

/// The text before and the text behind the first `c`, if there is one.
pub open spec fn split_at_first(s: Seq<char>, c: char) -> Option<(Seq<char>, Seq<char>)> {
    match first_index(s, c) {
        Some(i) => Some((s.take(i), s.skip(i + 1))),
        None => None,
    }
}

proof fn first_index_found(s: Seq<char>, c: char, i: int)
    requires
        0 <= i < s.len(),
        s[i] == c,
        forall|j: int| 0 <= j < i ==> s[j] != c,
    ensures
        first_index(s, c) == Some(i),
    decreases s.len(),
{
    if i > 0 {
        first_index_found(s.skip(1), c, i - 1);
    }
}

proof fn first_index_missing(s: Seq<char>, c: char)
    requires
        forall|j: int| 0 <= j < s.len() ==> s[j] != c,
    ensures
        first_index(s, c) is None,
    decreases s.len(),
{
    if s.len() > 0 {
        first_index_missing(s.skip(1), c);
    }
}

/// Splits a text at the first `c`.
pub fn split_once(s: &str, c: char) -> (r: Option<(String, String)>)
    ensures
        match r {
            Some(p) => split_at_first(s@, c) == Some((p.0@, p.1@)),
            None => split_at_first(s@, c) is None,
        },
{
    let v = chars_of(s);
    let mut i: usize = 0;
    while i < v.len()
        invariant
            v@ == s@,
            i <= v.len(),
            forall|j: int| 0 <= j < i ==> s@[j] != c,
        decreases v.len() - i,
    {
        if v[i] == c {
            proof {
                first_index_found(s@, c, i as int);
                assert(s@.subrange(0, i as int) =~= s@.take(i as int));
                assert(s@.subrange(i + 1, s@.len() as int) =~= s@.skip(i + 1));
            }
            return Some((text_of(&v, 0, i), text_of(&v, i + 1, v.len())));
        }
        i = i + 1;
    }
    proof {
        first_index_missing(s@, c);
    }
    None
}

// ------------------------------------------------------------ numbers ----

pub open spec fn is_digit(c: char) -> bool {
    '0' <= c <= '9'
}

/// The number that a run of decimal digits writes.
pub open spec fn digits_value(s: Seq<char>) -> nat
    decreases s.len(),
{
    if s.len() == 0 {
        0
    } else {
        digits_value(s.drop_last()) * 10 + (s.last() as nat - 48) as nat
    }
}

/// Reading an unsigned 64-bit number: an optional `+`, then one or more
/// decimal digits whose value fits.
pub open spec fn number_of(s: Seq<char>) -> Option<u64> {
    let d = unsigned_part(s);
    if d.len() > 0 && all_digits(d) && digits_value(d) <= u64::MAX {
        Some(digits_value(d) as u64)
    } else {
        None
    }
}

/// A text without its optional leading `+`.
pub open spec fn unsigned_part(s: Seq<char>) -> Seq<char> {
    if s.len() > 0 && s[0] == '+' {
        s.skip(1)
    } else {
        s
    }
}

pub open spec fn all_digits(d: Seq<char>) -> bool {
    forall|i: int| 0 <= i < d.len() ==> is_digit(#[trigger] d[i])
}

proof fn digits_value_grows(s: Seq<char>, n: int)
    requires
        0 <= n <= s.len(),
        all_digits(s),
    ensures
        digits_value(s.take(n)) <= digits_value(s),
    decreases s.len() - n,
{
    if n == s.len() {
        assert(s.take(n) =~= s);
    } else {
        digits_value_grows(s, n + 1);
        assert(s.take(n + 1).drop_last() =~= s.take(n));
    }
}

/// Reads an unsigned 64-bit number, as [`number_of`] says.
pub fn parse_number(s: &str) -> (r: Option<u64>)
    ensures
        r == number_of(s@),
{
    let v = chars_of(s);
    let start: usize = if v.len() > 0 && v[0] == '+' { 1 } else { 0 };
    let ghost d = unsigned_part(s@);
    proof {
        assert(d =~= v@.skip(start as int));
    }
    if start >= v.len() {
        return None;
    }
    let mut i: usize = start;
    let mut n: u64 = 0;
    proof {
        assert(d.take(0).len() == 0);
    }
    while i < v.len()
        invariant
            v@ == s@,
            start <= i <= v.len(),
            d == v@.skip(start as int),
            d == unsigned_part(s@),
            start < v.len(),
            forall|k: int| 0 <= k < i - start ==> is_digit(#[trigger] d[k]),
            n == digits_value(d.take(i - start)),
        decreases v.len() - i,
    {
        let c = v[i];
        proof {
            assert(d[i - start] == c);
            assert(d.take(i + 1 - start).drop_last() =~= d.take(i - start));
            assert(d.take(i + 1 - start).last() == c);
        }
        if c < '0' || c > '9' {
            proof {
                assert(!is_digit(d[i - start]));
            }
            return None;
        }
        let x: u64 = (c as u32 - 48) as u64;
        if n > (u64::MAX - x) / 10 {
            proof {
                if all_digits(d) {
                    digits_value_grows(d, i + 1 - start);
                }
            }
            return None;
        }
        n = n * 10 + x;
        i = i + 1;
    }
    proof {
        assert(d.take(i - start) =~= d);
    }
    Some(n)
}

/// A number that is written is read back as itself.
pub proof fn decimal_reads_back(n: u64)
    ensures
        number_of(decimal_of(n as nat)) == Some(n),
{
    decimal_digits(n as nat);
}

proof fn decimal_digits(n: nat)
    ensures
        decimal_of(n).len() > 0,
        all_digits(decimal_of(n)),
        digits_value(decimal_of(n)) == n,
        decimal_of(n)[0] != '+',
    decreases n,
{
    let s = decimal_of(n);
    if n < 10 {
        assert(s.drop_last().len() == 0);
        assert(s.last() == digit(n));
        assert(digits_value(s.drop_last()) == 0);
    } else {
        decimal_digits(n / 10);
        assert(s.drop_last() =~= decimal_of(n / 10));
        assert(s.last() == digit(n % 10));
        assert forall|i: int| 0 <= i < s.len() implies is_digit(#[trigger] s[i]) by {
            if i < s.len() - 1 {
                assert(s[i] == decimal_of(n / 10)[i]);
            }
        }
        assert(s[0] == decimal_of(n / 10)[0]);
    }
}

// --------------------------------------------------------- white space ----

/// Whether a character has the Unicode property `White_Space`.
#[verifier::opaque]
pub open spec fn white_space(c: char) -> bool {
    ||| '\u{9}' <= c <= '\u{d}'
    ||| c == '\u{20}'
    ||| c == '\u{85}'
    ||| c == '\u{a0}'
    ||| c == '\u{1680}'
    ||| '\u{2000}' <= c <= '\u{200a}'
    ||| c == '\u{2028}'
    ||| c == '\u{2029}'
    ||| c == '\u{202f}'
    ||| c == '\u{205f}'
    ||| c == '\u{3000}'
}

/// `char::is_whitespace` of std. Claims that it decides the Unicode property
/// `White_Space`.
#[verifier::external_body]
pub(crate) fn is_white(c: char) -> (r: bool)
    ensures
        r == white_space(c),
{
    c.is_whitespace()
}

/// How many characters of white space a text begins with.
pub open spec fn leading_white(s: Seq<char>) -> nat
    decreases s.len(),
{
    if s.len() == 0 || !white_space(s[0]) {
        0
    } else {
        1 + leading_white(s.skip(1))
    }
}

/// How many characters of white space a text ends with.
pub open spec fn trailing_white(s: Seq<char>) -> nat
    decreases s.len(),
{
    if s.len() == 0 || !white_space(s.last()) {
        0
    } else {
        1 + trailing_white(s.drop_last())
    }
}

/// A text without its leading and its trailing white space.
pub open spec fn trimmed(s: Seq<char>) -> Seq<char> {
    let t = s.skip(leading_white(s) as int);
    t.take(t.len() - trailing_white(t))
}

proof fn leading_white_bounded(s: Seq<char>)
    ensures
        leading_white(s) <= s.len(),
    decreases s.len(),
{
    if s.len() > 0 {
        leading_white_bounded(s.skip(1));
    }
}

/// Takes the white space off both ends.
pub fn trim(s: &str) -> (r: String)
    ensures
        r@ == trimmed(s@),
{
    let v = chars_of(s);
    let mut from: usize = 0;
    proof {
        assert(s@.skip(0) =~= s@);
    }
    while from < v.len() && is_white(v[from])
        invariant
            v@ == s@,
            from <= v.len(),
            leading_white(s@) == from + leading_white(s@.skip(from as int)),
        decreases v.len() - from,
    {
        proof {
            assert(s@.skip(from as int).skip(1) =~= s@.skip(from + 1));
        }
        from = from + 1;
    }
    proof {
        if from == v.len() {
            assert(s@.skip(from as int).len() == 0);
        }
    }
    let ghost t = s@.skip(from as int);
    let mut to: usize = v.len();
    proof {
        assert(t.take(to - from) =~= t);
    }
    while to > from && is_white(v[to - 1])
        invariant
            v@ == s@,
            from <= to <= v.len(),
            t == s@.skip(from as int),
            trailing_white(t) == (v.len() - to) + trailing_white(t.take(to - from)),
        decreases to,
    {
        proof {
            assert(t.take(to - from).last() == s@[to - 1]);
            assert(t.take(to - from).drop_last() =~= t.take(to - 1 - from));
        }
        to = to - 1;
    }
    proof {
        if to > from {
            assert(t.take(to - from).last() == s@[to - 1]);
        }
        assert(s@.subrange(from as int, to as int) =~= t.take(to - from));
    }
    text_of(&v, from, to)
}

// --------------------------------------------------------------- words ----

/// How many characters of a text stand before its first white space.
pub open spec fn leading_word(s: Seq<char>) -> nat
    decreases s.len(),
{
    if s.len() == 0 || white_space(s[0]) {
        0
    } else {
        1 + leading_word(s.skip(1))
    }
}

proof fn leading_word_bounded(s: Seq<char>)
    ensures
        leading_word(s) <= s.len(),
    decreases s.len(),
{
    if s.len() > 0 {
        leading_word_bounded(s.skip(1));
    }
}

/// The runs of a text that hold no white space, in order.
pub open spec fn words(s: Seq<char>) -> Seq<Seq<char>>
    decreases s.len(),
{
    if s.len() == 0 {
        Seq::empty()
    } else if white_space(s[0]) {
        words(s.skip(1))
    } else {
        let n = leading_word(s) as int;
        if 0 < n <= s.len() {
            seq![s.take(n)] + words(s.skip(n))
        } else {
            Seq::empty()
        }
    }
}

/// Takes a text apart at its white space.
pub fn split_words(s: &str) -> (r: Vec<String>)
    ensures
        views(r@) == words(s@),
{
    let v = chars_of(s);
    let mut out: Vec<String> = Vec::new();
    let mut i: usize = 0;
    proof {
        assert(s@.skip(0) =~= s@);
        assert(views(out@) + words(s@) =~= words(s@));
    }
    while i < v.len()
        invariant
            v@ == s@,
            i <= v.len(),
            views(out@) + words(s@.skip(i as int)) == words(s@),
        decreases v.len() - i,
    {
        let ghost rest = s@.skip(i as int);
        if is_white(v[i]) {
            proof {
                assert(rest.skip(1) =~= s@.skip(i + 1));
            }
            i = i + 1;
        } else {
            let start: usize = i;
            while i < v.len() && !is_white(v[i])
                invariant
                    v@ == s@,
                    start <= i <= v.len(),
                    rest == s@.skip(start as int),
                    leading_word(rest) == (i - start) + leading_word(s@.skip(i as int)),
                decreases v.len() - i,
            {
                proof {
                    assert(s@.skip(i as int).skip(1) =~= s@.skip(i + 1));
                }
                i = i + 1;
            }
            let word = text_of(&v, start, i);
            proof {
                leading_word_bounded(rest);
                if i == v.len() {
                    assert(s@.skip(i as int).len() == 0);
                }
                assert(leading_word(rest) == i - start);
                assert(rest.skip(1).len() < rest.len());
                assert(word@ =~= rest.take(i - start));
                assert(rest.skip(i - start) =~= s@.skip(i as int));
            }
            let ghost before_out = out@;
            out.push(word);
            proof {
                assert(views(out@) =~= views(before_out) + seq![word@]);
                assert(views(out@) + words(s@.skip(i as int)) =~= views(before_out) + (seq![word@]
                    + words(s@.skip(i as int))));
            }
        }
    }
    proof {
        assert(s@.skip(i as int).len() == 0);
        assert(views(out@) + Seq::<Seq<char>>::empty() =~= views(out@));
    }
    out
}

/// What `str::to_lowercase` of std makes of a text.
pub uninterp spec fn lowercase_of(s: Seq<char>) -> Seq<char>;

/// `str::to_lowercase` of std. Claims only that the text decides the result.
#[verifier::external_body]
pub(crate) fn lowercase(s: &str) -> (r: String)
    ensures
        r@ == lowercase_of(s@),
{
    s.to_lowercase()
}

/// Texts one behind another, with a separator between every two.
pub open spec fn joined(parts: Seq<Seq<char>>, by: Seq<char>) -> Seq<char>
    decreases parts.len(),
{
    if parts.len() == 0 {
        Seq::empty()
    } else if parts.len() == 1 {
        parts[0]
    } else {
        joined(parts.drop_last(), by) + by + parts.last()
    }
}

/// Whether a text is white space throughout.
pub open spec fn blank(s: Seq<char>) -> bool {
    forall|i: int| 0 <= i < s.len() ==> white_space(#[trigger] s[i])
}

proof fn leading_word_stops(a: Seq<char>, rest: Seq<char>)
    requires
        rest.len() > 0 ==> white_space(rest[0]),
    ensures
        leading_word(a + rest) == leading_word(a),
    decreases a.len(),
{
    if a.len() == 0 {
        assert(a + rest =~= rest);
    } else {
        assert((a + rest).skip(1) =~= a.skip(1) + rest);
        leading_word_stops(a.skip(1), rest);
    }
}

/// A run of white space ends one word and begins no other: the words around
/// it are those before it and those behind it, however long it is.
pub proof fn words_around_blank(a: Seq<char>, gap: Seq<char>, b: Seq<char>)
    requires
        blank(gap),
        gap.len() > 0 || a.len() == 0 || b.len() == 0,
    ensures
        words(a + gap + b) == words(a) + words(b),
    decreases a.len() + gap.len(),
{
    let all = a + gap + b;
    if a.len() == 0 {
        assert(words(a) + words(b) =~= words(b));
        if gap.len() == 0 {
            assert(all =~= b);
        } else {
            assert(all[0] == gap[0]);
            assert(all.skip(1) =~= a + gap.skip(1) + b);
            words_around_blank(a, gap.skip(1), b);
        }
    } else if white_space(a[0]) {
        assert(all[0] == a[0]);
        assert(all.skip(1) =~= a.skip(1) + gap + b);
        words_around_blank(a.skip(1), gap, b);
    } else if gap.len() == 0 {
        assert(all =~= a);
        assert(words(a) + words(b) =~= words(a));
    } else {
        let n = leading_word(a) as int;
        leading_word_bounded(a);
        assert(all =~= a + (gap + b));
        assert((gap + b)[0] == gap[0]);
        leading_word_stops(a, gap + b);
        assert(n > 0);
        assert(all[0] == a[0]);
        assert(all.take(n) =~= a.take(n));
        assert(all.skip(n) =~= a.skip(n) + gap + b);
        words_around_blank(a.skip(n), gap, b);
        assert(seq![a.take(n)] + (words(a.skip(n)) + words(b)) =~= (seq![a.take(n)] + words(
            a.skip(n),
        )) + words(b));
    }
}

/// Whether a text is one word.
pub open spec fn is_word(s: Seq<char>) -> bool {
    s.len() > 0 && forall|i: int| 0 <= i < s.len() ==> !white_space(#[trigger] s[i])
}

proof fn a_word_leads(s: Seq<char>)
    requires
        forall|i: int| 0 <= i < s.len() ==> !white_space(#[trigger] s[i]),
    ensures
        leading_word(s) == s.len(),
    decreases s.len(),
{
    if s.len() > 0 {
        assert forall|i: int| 0 <= i < s.skip(1).len() implies !white_space(
            #[trigger] s.skip(1)[i],
        ) by {
            assert(s.skip(1)[i] == s[i + 1]);
        }
        assert(!white_space(s[0]));
        a_word_leads(s.skip(1));
    }
}

/// Words that are joined by a space are found again.
pub proof fn joined_words_are_found(parts: Seq<Seq<char>>)
    requires
        forall|i: int| 0 <= i < parts.len() ==> is_word(#[trigger] parts[i]),
    ensures
        words(joined(parts, " "@)) == parts,
    decreases parts.len(),
{
    reveal_strlit(" ");
    reveal(white_space);
    if parts.len() == 0 {
        assert(words(joined(parts, " "@)) =~= parts);
    } else {
        let w = parts.last();
        assert(is_word(w));
        a_word_leads(w);
        assert(w.take(w.len() as int) =~= w);
        assert(w.skip(w.len() as int).len() == 0);
        assert(!white_space(w[0]));
        assert(words(w.skip(w.len() as int)) =~= Seq::<Seq<char>>::empty());
        assert(words(w) =~= seq![w]);
        if parts.len() == 1 {
            assert(parts =~= seq![w]);
        } else {
            let front = parts.drop_last();
            assert forall|i: int| 0 <= i < front.len() implies is_word(#[trigger] front[i]) by {
                assert(front[i] == parts[i]);
            }
            joined_words_are_found(front);
            words_around_blank(joined(front, " "@), " "@, w);
            assert(parts =~= front + seq![w]);
        }
    }
}

/// Texts are ordered as in a dictionary: a text comes before what goes on from
/// it, and of two that part at a character the one with the smaller.
pub proof fn the_first_difference_decides(
    start: Seq<char>,
    x: char,
    y: char,
    a: Seq<char>,
    b: Seq<char>,
)
    ensures
        b.len() > 0 ==> before(start, start + b),
        !before(start + b, start),
        x != y ==> (before(start + seq![x] + a, start + seq![y] + b) <==> (x as int) < (y as int)),
    decreases start.len(),
{
    if start.len() == 0 {
        assert(start + b =~= b);
        assert(start + seq![x] + a =~= seq![x] + a);
        assert(start + seq![y] + b =~= seq![y] + b);
        assert((seq![x] + a)[0] == x);
        assert((seq![y] + b)[0] == y);
    } else {
        let rest = start.skip(1);
        the_first_difference_decides(rest, x, y, a, b);
        assert((start + b).skip(1) =~= rest + b);
        assert((start + seq![x] + a).skip(1) =~= rest + seq![x] + a);
        assert((start + seq![y] + b).skip(1) =~= rest + seq![y] + b);
    }
}

proof fn first_index_is_the_first(s: Seq<char>, c: char)
    ensures
        match first_index(s, c) {
            Some(i) => 0 <= i < s.len() && s[i] == c && forall|j: int|
                0 <= j < i ==> (#[trigger] s[j]) != c,
            None => forall|j: int| 0 <= j < s.len() ==> (#[trigger] s[j]) != c,
        },
    decreases s.len(),
{
    if s.len() > 0 && s[0] != c {
        let t = s.skip(1);
        first_index_is_the_first(t, c);
        match first_index(t, c) {
            Some(i) => {
                assert forall|j: int| 0 <= j < i + 1 implies (#[trigger] s[j]) != c by {
                    if j > 0 {
                        assert(t[j - 1] == s[j]);
                    }
                }
            },
            None => {
                assert forall|j: int| 0 <= j < s.len() implies (#[trigger] s[j]) != c by {
                    if j > 0 {
                        assert(t[j - 1] == s[j]);
                    }
                }
            },
        }
    }
}

/// A split takes out the first separator and nothing else; there is none only
/// where the text holds no separator.
pub proof fn a_split_takes_out_the_first_separator(s: Seq<char>, c: char)
    ensures
        split_at_first(s, c) is Some <==> s.contains(c),
        split_at_first(s, c) is Some ==> {
            let p = split_at_first(s, c)->0;
            &&& p.0 + seq![c] + p.1 == s
            &&& !p.0.contains(c)
        },
{
    first_index_is_the_first(s, c);
    match first_index(s, c) {
        Some(i) => {
            assert(s.take(i) + seq![c] + s.skip(i + 1) =~= s);
        },
        None => {},
    }
}

/// A decimal is of digits, without a zero in front but for zero itself, and two
/// numbers have one decimal only where they are one.
pub proof fn decimals_are_told_apart(a: nat, b: nat)
    ensures
        all_digits(decimal_of(a)),
        decimal_of(a).len() > 0,
        digits_value(decimal_of(a)) == a,
        a > 0 ==> decimal_of(a)[0] != '0',
        decimal_of(a) == decimal_of(b) ==> a == b,
    decreases a, b,
{
    decimal_value(a);
    decimal_value(b);
}

proof fn decimal_value(n: nat)
    ensures
        all_digits(decimal_of(n)),
        decimal_of(n).len() > 0,
        digits_value(decimal_of(n)) == n,
        n > 0 ==> decimal_of(n)[0] != '0',
    decreases n,
{
    let d = decimal_of(n);
    if n < 10 {
        assert(d =~= seq![digit(n)]);
        assert(d.drop_last() =~= Seq::<char>::empty());
        assert(digits_value(d.drop_last()) == 0);
    } else {
        decimal_value(n / 10);
        let e = decimal_of(n / 10);
        assert(d == e.push(digit(n % 10)));
        assert(d.drop_last() =~= e);
        assert(digits_value(d) == (n / 10) * 10 + n % 10);
        assert(d[0] == e[0]);
        assert forall|i: int| 0 <= i < d.len() implies is_digit(#[trigger] d[i]) by {
            if i < e.len() {
                assert(is_digit(e[i]));
            }
        }
    }
}

/// A trimmed text is what is left between two blanks, and neither begins nor
/// ends with white space.
pub proof fn a_trim_takes_the_blanks_around(s: Seq<char>)
    ensures
        trimmed(s).len() > 0 ==> !white_space(trimmed(s)[0]) && !white_space(trimmed(s).last()),
        exists|a: Seq<char>, b: Seq<char>|
            #[trigger] blank(a) && #[trigger] blank(b) && s == a + trimmed(s) + b,
        (s.len() > 0 && !white_space(s[0]) && !white_space(s.last())) ==> trimmed(s) == s,
{
    let n = leading_white(s) as int;
    leading_is_blank(s);
    let t = s.skip(n);
    let m = trailing_white(t) as int;
    trailing_is_blank(t);
    let a = s.take(n);
    let b = t.skip(t.len() - m);
    let u = trimmed(s);
    assert(s =~= a + u + b);
    assert(blank(a));
    assert(blank(b));
    if u.len() > 0 {
        assert(u[0] == t[0]);
        assert(t[0] == s[n]);
        assert(u.last() == t[t.len() - m - 1]);
    }
    if s.len() > 0 && !white_space(s[0]) && !white_space(s.last()) {
        assert(n == 0);
        assert(t =~= s);
        assert(u =~= s);
    }
}

proof fn leading_is_blank(s: Seq<char>)
    ensures
        leading_white(s) <= s.len(),
        blank(s.take(leading_white(s) as int)),
        leading_white(s) < s.len() ==> !white_space(s[leading_white(s) as int]),
    decreases s.len(),
{
    if s.len() > 0 && white_space(s[0]) {
        let t = s.skip(1);
        leading_is_blank(t);
        let n = leading_white(s) as int;
        assert forall|i: int| 0 <= i < n implies white_space(#[trigger] s.take(n)[i]) by {
            if i > 0 {
                assert(t.take(n - 1)[i - 1] == s[i]);
            }
        }
    }
}

proof fn trailing_is_blank(s: Seq<char>)
    ensures
        trailing_white(s) <= s.len(),
        blank(s.skip(s.len() - trailing_white(s))),
        trailing_white(s) < s.len() ==> !white_space(s[s.len() - trailing_white(s) - 1]),
    decreases s.len(),
{
    if s.len() > 0 && white_space(s.last()) {
        let t = s.drop_last();
        trailing_is_blank(t);
        let m = trailing_white(s) as int;
        let u = s.skip(s.len() - m);
        assert forall|i: int| 0 <= i < u.len() implies white_space(#[trigger] u[i]) by {
            if i < u.len() - 1 {
                assert(t.skip(t.len() - (m - 1))[i] == u[i]);
            }
        }
    }
}

/// Every word of a text is one, and a text without white space is its only word.
pub proof fn every_word_is_one(s: Seq<char>)
    ensures
        forall|i: int| 0 <= i < words(s).len() ==> is_word(#[trigger] words(s)[i]),
        is_word(s) ==> words(s) == seq![s],
        blank(s) ==> words(s).len() == 0,
    decreases s.len(),
{
    if s.len() > 0 {
        if white_space(s[0]) {
            let t = s.skip(1);
            every_word_is_one(t);
            if blank(s) {
                assert forall|i: int| 0 <= i < t.len() implies white_space(#[trigger] t[i]) by {
                    assert(s[i + 1] == t[i]);
                }
            }
        } else {
            word_in_front(s);
            let n = leading_word(s) as int;
            every_word_is_one(s.skip(n));
            let w = words(s);
            assert(w == seq![s.take(n)] + words(s.skip(n)));
            assert forall|i: int| 0 <= i < w.len() implies is_word(#[trigger] w[i]) by {
                if i > 0 {
                    assert(w[i] == words(s.skip(n))[i - 1]);
                } else {
                    assert(w[i] == s.take(n));
                }
            }
            if is_word(s) {
                assert(n == s.len());
                assert(s.take(n) =~= s);
                assert(s.skip(n) =~= Seq::<char>::empty());
                assert(w =~= seq![s]);
            }
        }
    }
}

proof fn word_in_front(s: Seq<char>)
    requires
        s.len() > 0,
        !white_space(s[0]),
    ensures
        0 < leading_word(s) <= s.len(),
        is_word(s.take(leading_word(s) as int)),
        leading_word(s) < s.len() ==> white_space(s[leading_word(s) as int]),
    decreases s.len(),
{
    let t = s.skip(1);
    let n = leading_word(s) as int;
    assert(n == 1 + leading_word(t));
    if t.len() == 0 || white_space(t[0]) {
        assert(leading_word(t) == 0);
        assert(s.take(n) =~= seq![s[0]]);
    } else {
        word_in_front(t);
        assert forall|i: int| 0 <= i < n implies !white_space(#[trigger] s.take(n)[i]) by {
            if i > 0 {
                assert(t.take(n - 1)[i - 1] == s[i]);
            }
        }
    }
}

/// White space is what Unicode calls so, and no letter, digit or sign of ASCII.
pub proof fn white_space_is_what_unicode_calls_so(c: char)
    ensures
        white_space(c) <==> {
            let n = c as u32;
            ||| n == 0x09 || n == 0x0a || n == 0x0b || n == 0x0c || n == 0x0d || n == 0x20
            ||| n == 0x85 || n == 0xa0 || n == 0x1680
            ||| n == 0x2000 || n == 0x2001 || n == 0x2002 || n == 0x2003 || n == 0x2004
            ||| n == 0x2005 || n == 0x2006 || n == 0x2007 || n == 0x2008 || n == 0x2009
            ||| n == 0x200a || n == 0x2028 || n == 0x2029 || n == 0x202f || n == 0x205f
            ||| n == 0x3000
        },
        '!' <= c <= '~' ==> !white_space(c),
{
    reveal(white_space);
}

/// A number is read of digits alone, with or without a plus before them, where it
/// fits; and of nothing else.
pub proof fn a_number_is_read_of_digits(s: Seq<char>)
    ensures
        number_of(s) is Some ==> s.len() > 0,
        number_of(Seq::<char>::empty()) is None,
        s.len() > 0 && all_digits(s) && digits_value(s) <= u64::MAX ==> number_of(s) == Some(
            digits_value(s) as u64,
        ) && number_of(seq!['+'] + s) == number_of(s),
        all_digits(s) && digits_value(s) > u64::MAX ==> number_of(s) is None,
        forall|i: int|
            0 < i < s.len() && !is_digit(#[trigger] s[i]) ==> number_of(s) is None,
        s.len() > 0 && !is_digit(s[0]) && s[0] != '+' ==> number_of(s) is None,
        forall|d: nat| d < 10 ==> digits_value(s.push(#[trigger] digit(d))) == digits_value(s) * 10
            + d,
{
    assert(unsigned_part(Seq::<char>::empty()).len() == 0);
    if s.len() > 0 && all_digits(s) {
        assert(is_digit(s[0]));
        assert((seq!['+'] + s).skip(1) =~= s);
        assert((seq!['+'] + s)[0] == '+');
    }
    assert forall|i: int| 0 < i < s.len() && !is_digit(#[trigger] s[i]) implies number_of(s)
        is None by {
        let d = unsigned_part(s);
        if s[0] == '+' {
            assert(d[i - 1] == s[i]);
        } else {
            assert(d[i] == s[i]);
        }
    }
    assert forall|d: nat| d < 10 implies digits_value(s.push(#[trigger] digit(d)))
        == digits_value(s) * 10 + d by {
        assert(s.push(digit(d)).drop_last() =~= s);
        assert(s.push(digit(d)).last() == digit(d));
    }
}

/// Replacing puts the one text in the place of the other where that first
/// stands, keeps what is before it, and goes on behind it.
pub proof fn the_first_occurrence_is_replaced(
    a: Seq<char>,
    needle: Seq<char>,
    b: Seq<char>,
    by: Seq<char>,
)
    requires
        needle.len() > 0,
        forall|i: int| 0 <= i < a.len() ==> !#[trigger] stands_at(a + needle + b, needle, i),
    ensures
        replaced(a + needle + b, needle, by) == a + by + replaced(b, needle, by),
    decreases a.len(),
{
    let hay = a + needle + b;
    if a.len() == 0 {
        assert(hay.subrange(0, needle.len() as int) =~= needle);
        assert(stands_at(hay, needle, 0));
        assert(hay.skip(needle.len() as int) =~= b);
        assert(a + by + replaced(b, needle, by) =~= by + replaced(b, needle, by));
    } else {
        let t = a.skip(1);
        let rest = t + needle + b;
        assert(hay.skip(1) =~= rest);
        assert(!stands_at(hay, needle, 0));
        assert forall|i: int| 0 <= i < t.len() implies !#[trigger] stands_at(rest, needle, i) by {
            if stands_at(rest, needle, i) {
                assert(hay.subrange(i + 1, i + 1 + needle.len()) =~= rest.subrange(
                    i,
                    i + needle.len(),
                ));
                assert(stands_at(hay, needle, i + 1));
            }
        }
        the_first_occurrence_is_replaced(t, needle, b, by);
        assert(seq![hay[0]] + (t + by + replaced(b, needle, by)) =~= a + by + replaced(
            b,
            needle,
            by,
        ));
    }
}

/// Joined texts stand one behind the other with the separator between each two.
pub proof fn a_join_puts_the_separator_between(
    parts: Seq<Seq<char>>,
    last: Seq<char>,
    by: Seq<char>,
)
    ensures
        joined(Seq::<Seq<char>>::empty(), by).len() == 0,
        joined(seq![last], by) == last,
        parts.len() > 0 ==> joined(parts.push(last), by) == joined(parts, by) + by + last,
{
    assert(parts.push(last).drop_last() =~= parts);
}

} // verus!
