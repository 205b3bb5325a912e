//! Taking the text of a redacted contribution out of everything that may
//! still hold a copy of it.
//!
//! A document that projects the contribution gets the placeholder body and the
//! current digest; then every literal of the removed text is swept, longest
//! first.

use vstd::prelude::*;

use crate::json::{self, json_view, member, member_at, parse, parsed, render, rendered,
    text_value, well_formed, Json, JsonView};
use crate::problem::{internal, internal_view, Problem};
use crate::records::{parts_well_formed, Part};
use crate::text::{before, before_irreflexive, before_total, before_transitive, chars_before,
    chars_of, contains, occurs, replace_all, replaced, replaced_without_occurrence, same,
    stands_at, views};

verus! {

// -------------------------------------------------------------- needles ----

/// How many bytes a character takes in UTF-8.
pub open spec fn char_bytes(c: char) -> nat {
    if (c as u32) < 0x80 {
        1
    } else if (c as u32) < 0x800 {
        2
    } else if (c as u32) < 0x10000 {
        3
    } else {
        4
    }
}

/// How many bytes a text takes in UTF-8.
pub open spec fn byte_len(s: Seq<char>) -> nat
    decreases s.len(),
{
    if s.len() == 0 {
        0
    } else {
        byte_len(s.drop_last()) + char_bytes(s.last())
    }
}

fn bytes_of(v: &Vec<char>) -> (r: u128)
    ensures
        r == byte_len(v@),
{
    let mut n: u128 = 0;
    let mut i: usize = 0;
    proof {
        assert(v@.take(0).len() == 0);
    }
    while i < v.len()
        invariant
            i <= v.len(),
            n == byte_len(v@.take(i as int)),
            n <= 4 * i,
        decreases v.len() - i,
    {
        let c: u32 = v[i] as u32;
        let w: u128 = if c < 0x80 {
            1
        } else if c < 0x800 {
            2
        } else if c < 0x10000 {
            3
        } else {
            4
        };
        proof {
            assert(v@.take(i + 1).drop_last() =~= v@.take(i as int));
            assert(v@.take(i + 1).last() == v@[i as int]);
        }
        n = n + w;
        i = i + 1;
    }
    proof {
        assert(v@.take(i as int) =~= v@);
    }
    n
}

/// The texts of a document, in order.
pub open spec fn leaves_of(j: JsonView) -> Seq<Seq<char>>
    decreases j, 1nat, 0nat,
{
    match j {
        JsonView::Text(s) => seq![s],
        JsonView::List(items) => leaves_upto(j, items.len()),
        JsonView::Object(fields) => leaves_upto(j, fields.len()),
        _ => Seq::empty(),
    }
}

/// The texts of the first `n` members of a document, in order.
pub open spec fn leaves_upto(j: JsonView, n: nat) -> Seq<Seq<char>>
    decreases j, 0nat, n,
{
    if n == 0 {
        Seq::empty()
    } else {
        match j {
            JsonView::List(items) => if n <= items.len() {
                leaves_upto(j, (n - 1) as nat) + leaves_of(items[n - 1])
            } else {
                Seq::empty()
            },
            JsonView::Object(fields) => if n <= fields.len() {
                leaves_upto(j, (n - 1) as nat) + leaves_of(fields[n - 1].1)
            } else {
                Seq::empty()
            },
            _ => Seq::empty(),
        }
    }
}

fn leaves(value: &Json, out: &mut Vec<String>)
    ensures
        views(final(out)@) == views(old(out)@) + leaves_of(value@),
    decreases value,
{
    let ghost start = views(out@);
    match value {
        Json::Text(s) => {
            out.push(s.clone());
            proof {
                assert(views(out@) =~= start + seq![s@]);
            }
        },
        Json::List(items) => {
            let ghost jv = value@;
            let mut i: usize = 0;
            proof {
                assert(views(out@) =~= start + leaves_upto(jv, 0));
            }
            while i < items.len()
                invariant
                    *value == Json::List(*items),
                    jv == value@,
                    jv is List,
                    jv->List_0.len() == items@.len(),
                    i <= items.len(),
                    views(out@) == start + leaves_upto(jv, i as nat),
                decreases items.len() - i,
            {
                proof {
                    assert(decreases_to!(value => value->List_0));
                    assert(decreases_to!(value->List_0 => value->List_0@));
                    assert(jv->List_0[i as int] == json_view(items@[i as int]));
                }
                leaves(&items[i], out);
                proof {
                    assert(leaves_upto(jv, (i + 1) as nat) == leaves_upto(jv, i as nat)
                        + leaves_of(jv->List_0[i as int]));
                    assert(views(out@) =~= start + leaves_upto(jv, (i + 1) as nat));
                }
                i = i + 1;
            }
        },
        Json::Object(fields) => {
            let ghost jv = value@;
            let mut i: usize = 0;
            proof {
                assert(views(out@) =~= start + leaves_upto(jv, 0));
            }
            while i < fields.len()
                invariant
                    *value == Json::Object(*fields),
                    jv == value@,
                    jv is Object,
                    jv->Object_0.len() == fields@.len(),
                    i <= fields.len(),
                    views(out@) == start + leaves_upto(jv, i as nat),
                decreases fields.len() - i,
            {
                proof {
                    assert(decreases_to!(value => value->Object_0));
                    assert(decreases_to!(value->Object_0 => value->Object_0@));
                    assert(decreases_to!(fields@[i as int] => fields@[i as int].1));
                    assert(jv->Object_0[i as int] == (
                        fields@[i as int].0@,
                        json_view(fields@[i as int].1),
                    ));
                }
                leaves(&fields[i].1, out);
                proof {
                    assert(leaves_upto(jv, (i + 1) as nat) == leaves_upto(jv, i as nat)
                        + leaves_of(jv->Object_0[i as int].1));
                    assert(views(out@) =~= start + leaves_upto(jv, (i + 1) as nat));
                }
                i = i + 1;
            }
        },
        _ => {
            proof {
                assert(views(out@) =~= start + Seq::<Seq<char>>::empty());
            }
        },
    }
}

/// What of a part may be found elsewhere: a text, or a document's rendering
/// and every text in it.
pub open spec fn part_texts(p: Part) -> Seq<Seq<char>> {
    match p {
        Part::Text { text, .. } => seq![text@],
        Part::Data { value, .. } => seq![
            match rendered(value@) {
                Some(s) => s,
                None => Seq::empty(),
            },
        ] + leaves_of(value@),
        Part::Artifact { .. } => Seq::empty(),
    }
}

/// What of some parts may be found elsewhere, part by part.
pub open spec fn parts_texts(parts: Seq<Part>) -> Seq<Seq<char>>
    decreases parts.len(),
{
    if parts.len() == 0 {
        Seq::empty()
    } else {
        parts_texts(parts.drop_last()) + part_texts(parts.last())
    }
}

/// All that must not survive: what the body held, and the digest that was
/// replaced, where one was.
pub open spec fn candidates(parts: Seq<Part>, old_digest: Seq<char>, rekeyed: bool) -> Seq<Seq<char>> {
    if rekeyed {
        parts_texts(parts).push(old_digest)
    } else {
        parts_texts(parts)
    }
}

fn collect_candidates(parts: &Vec<Part>, old_digest: &str, rekeyed: bool) -> (out: Vec<String>)
    requires
        parts_well_formed(parts@),
    ensures
        views(out@) == candidates(parts@, old_digest@, rekeyed),
{
    let mut out: Vec<String> = Vec::new();
    let mut i: usize = 0;
    proof {
        assert(parts@.take(0).len() == 0);
        assert(views(out@) =~= parts_texts(parts@.take(0)));
    }
    while i < parts.len()
        invariant
            parts_well_formed(parts@),
            i <= parts.len(),
            views(out@) == parts_texts(parts@.take(i as int)),
        decreases parts.len() - i,
    {
        let ghost start = views(out@);
        proof {
            assert(parts@.take(i + 1).drop_last() =~= parts@.take(i as int));
            assert(parts@.take(i + 1).last() == parts@[i as int]);
        }
        match &parts[i] {
            Part::Text { text, .. } => {
                out.push(text.clone());
                proof {
                    assert(views(out@) =~= start + seq![text@]);
                }
            },
            Part::Data { value, .. } => {
                let whole = match render(value) {
                    Some(s) => s,
                    None => String::new(),
                };
                let ghost w = whole@;
                out.push(whole);
                proof {
                    if rendered(value@) is None {
                        assert(w =~= Seq::<char>::empty());
                    }
                    assert(views(out@) =~= start + seq![w]);
                }
                leaves(value, &mut out);
                proof {
                    assert(views(out@) =~= start + (seq![w] + leaves_of(value@)));
                }
            },
            Part::Artifact { .. } => {
                proof {
                    assert(views(out@) =~= start + Seq::<Seq<char>>::empty());
                }
            },
        }
        i = i + 1;
    }
    proof {
        assert(parts@.take(i as int) =~= parts@);
    }
    if rekeyed {
        let ghost start = views(out@);
        out.push(old_digest.to_owned());
        proof {
            assert(views(out@) =~= start.push(old_digest@));
        }
    }
    out
}

/// The order of needles: longer ones first, and equally long ones by their
/// characters.
pub open spec fn needle_before(a: Seq<char>, b: Seq<char>) -> bool {
    byte_len(a) > byte_len(b) || (byte_len(a) == byte_len(b) && before(a, b))
}

proof fn needle_order(a: Seq<char>, b: Seq<char>, c: Seq<char>)
    ensures
        !needle_before(a, a),
        a == b || needle_before(a, b) || needle_before(b, a),
        needle_before(a, b) && needle_before(b, c) ==> needle_before(a, c),
{
    before_irreflexive(a);
    before_total(a, b);
    if before(a, b) && before(b, c) {
        before_transitive(a, b, c);
    }
}

fn comes_first(a: &str, b: &str) -> (r: bool)
    ensures
        r == needle_before(a@, b@),
{
    let x = chars_of(a);
    let y = chars_of(b);
    let m: u128 = bytes_of(&x);
    let n: u128 = bytes_of(&y);
    m > n || (m == n && chars_before(&x, &y))
}

/// Whether needles stand in order, none twice.
pub open spec fn in_needle_order(v: Seq<Seq<char>>) -> bool {
    forall|i: int, j: int| 0 <= i < j < v.len() ==> needle_before(#[trigger] v[i], #[trigger] v[j])
}

/// Puts a needle in its place among the others, unless it is there already.
fn place_needle(out: &mut Vec<String>, s: String)
    requires
        in_needle_order(views(old(out)@)),
    ensures
        in_needle_order(views(final(out)@)),
        forall|x: Seq<char>|
            #[trigger] views(final(out)@).contains(x) <==> views(old(out)@).contains(x) || x == s@,
{
    let ghost v = views(out@);
    let ghost sv = s@;
    let mut at: usize = 0;
    while at < out.len() && comes_first(out[at].as_str(), s.as_str())
        invariant
            v == views(out@),
            sv == s@,
            in_needle_order(v),
            at <= out.len(),
            forall|i: int| 0 <= i < at ==> needle_before(#[trigger] v[i], sv),
        decreases out.len() - at,
    {
        proof {
            assert(v[at as int] == out@[at as int]@);
        }
        at = at + 1;
    }
    if at < out.len() && same(out[at].as_str(), s.as_str()) {
        proof {
            assert(v[at as int] == sv);
        }
        return ;
    }
    out.insert(at, s);
    proof {
        let w = views(out@);
        assert(w =~= v.insert(at as int, sv));
        if at < v.len() {
            needle_order(v[at as int], sv, sv);
            assert(needle_before(sv, v[at as int]));
        }
        assert forall|j: int| at <= j < v.len() implies needle_before(sv, #[trigger] v[j]) by {
            if j > at {
                needle_order(sv, v[at as int], v[j]);
            }
        }
        assert forall|i: int, j: int| 0 <= i < j < w.len() implies needle_before(
            #[trigger] w[i],
            #[trigger] w[j],
        ) by {
            if j < at {
                assert(w[i] == v[i] && w[j] == v[j]);
            } else if j == at {
                assert(w[i] == v[i] && w[j] == sv);
            } else if i < at {
                assert(w[i] == v[i] && w[j] == v[j - 1]);
            } else if i == at {
                assert(w[i] == sv && w[j] == v[j - 1]);
            } else {
                assert(w[i] == v[i - 1] && w[j] == v[j - 1]);
            }
        }
        assert forall|x: Seq<char>| #[trigger] w.contains(x) <==> v.contains(x) || x == sv by {
            if v.contains(x) {
                let i = choose|i: int| 0 <= i < v.len() && v[i] == x;
                if i < at {
                    assert(w[i] == x);
                } else {
                    assert(w[i + 1] == x);
                }
            }
            if x == sv {
                assert(w[at as int] == x);
            }
            if w.contains(x) {
                let i = choose|i: int| 0 <= i < w.len() && w[i] == x;
                if i < at {
                    assert(v[i] == x);
                } else if i > at {
                    assert(v[i - 1] == x);
                }
            }
        }
    }
}

/// Whether a list is the needles of what must not survive: everything of four
/// bytes or more, each once, longer ones first.
pub open spec fn needles_of(list: Seq<Seq<char>>, all: Seq<Seq<char>>) -> bool {
    &&& in_needle_order(list)
    &&& forall|x: Seq<char>|
        #[trigger] list.contains(x) <==> all.contains(x) && byte_len(x) >= 4
}

/// The literals that must not survive a redaction. What is shorter than four
/// bytes is left out: sweeping it would maim what has nothing to do with it.
pub fn plaintext_needles(parts: &Vec<Part>, old_digest: &str, rekeyed: bool) -> (r: Vec<String>)
    requires
        parts_well_formed(parts@),
    ensures
        needles_of(views(r@), candidates(parts@, old_digest@, rekeyed)),
{
    let found = collect_candidates(parts, old_digest, rekeyed);
    let ghost all = views(found@);
    let mut out: Vec<String> = Vec::new();
    let mut i: usize = 0;
    while i < found.len()
        invariant
            all == views(found@),
            i <= found.len(),
            in_needle_order(views(out@)),
            forall|x: Seq<char>|
                #[trigger] views(out@).contains(x) <==> all.take(i as int).contains(x) && byte_len(
                    x,
                ) >= 4,
        decreases found.len() - i,
    {
        let c = chars_of(found[i].as_str());
        let ghost before_out = views(out@);
        if bytes_of(&c) >= 4 {
            place_needle(&mut out, found[i].clone());
        }
        proof {
            let x0 = all[i as int];
            assert(x0 == found@[i as int]@);
            assert forall|x: Seq<char>|
                #[trigger] views(out@).contains(x) <==> all.take(i + 1).contains(x) && byte_len(x)
                    >= 4 by {
                let less = all.take(i as int);
                let more = all.take(i + 1);
                if less.contains(x) {
                    let k = choose|k: int| 0 <= k < less.len() && less[k] == x;
                    assert(more[k] == x);
                }
                if more.contains(x) {
                    let k = choose|k: int| 0 <= k < more.len() && more[k] == x;
                    if k < i {
                        assert(less[k] == x);
                    }
                }
                if x == x0 {
                    assert(more[i as int] == x);
                }
                assert(before_out.contains(x) <==> all.take(i as int).contains(x) && byte_len(x)
                    >= 4);
            }
        }
        i = i + 1;
    }
    proof {
        assert(all.take(i as int) =~= all);
    }
    out
}

// --------------------------------------------------------------- sweeps ----

pub open spec fn hex_digit(c: char) -> bool {
    '0' <= c <= '9' || 'a' <= c <= 'f'
}

/// Whether a text is written like a digest: 64 digits of lower-case hex.
pub open spec fn like_digest(s: Seq<char>) -> bool {
    s.len() == 64 && forall|i: int| 0 <= i < s.len() ==> hex_digit(#[trigger] s[i])
}

fn is_like_digest(s: &str) -> (r: bool)
    ensures
        r == like_digest(s@),
{
    let v = chars_of(s);
    if v.len() != 64 {
        return false;
    }
    let mut i: usize = 0;
    while i < v.len()
        invariant
            v@ == s@,
            i <= v.len(),
            forall|j: int| 0 <= j < i ==> hex_digit(#[trigger] v@[j]),
        decreases v.len() - i,
    {
        let c = v[i];
        if !(('0' <= c && c <= '9') || ('a' <= c && c <= 'f')) {
            assert(!hex_digit(v@[i as int]));
            return false;
        }
        i = i + 1;
    }
    true
}

/// What a needle is replaced by: a digest by the current one, anything else by
/// the marker.
pub open spec fn replacement(needle: Seq<char>, digest: Seq<char>) -> Seq<char> {
    if like_digest(needle) {
        digest
    } else {
        "[redacted]"@
    }
}

/// A text with the first `n` needles swept out of it, one after another.
pub open spec fn swept_upto(
    text: Seq<char>,
    needles: Seq<Seq<char>>,
    digest: Seq<char>,
    n: nat,
) -> Seq<char>
    decreases n,
{
    if n == 0 {
        text
    } else {
        let needle = needles[n - 1];
        replaced(
            swept_upto(text, needles, digest, (n - 1) as nat),
            needle,
            replacement(needle, digest),
        )
    }
}

/// A text with all needles swept out of it.
pub open spec fn swept(text: Seq<char>, needles: Seq<Seq<char>>, digest: Seq<char>) -> Seq<char> {
    swept_upto(text, needles, digest, needles.len())
}

/// Sweeps the needles out of a text, in order.
pub fn sweep_text(text: &str, needles: &Vec<String>, digest_hex: &str) -> (r: String)
    ensures
        r@ == swept(text@, views(needles@), digest_hex@),
{
    let mut out = text.to_owned();
    let ghost list = views(needles@);
    let mut i: usize = 0;
    while i < needles.len()
        invariant
            i <= needles.len(),
            list == views(needles@),
            out@ == swept_upto(text@, list, digest_hex@, i as nat),
        decreases needles.len() - i,
    {
        let needle = needles[i].as_str();
        proof {
            assert(list[i as int] == needle@);
        }
        if contains(out.as_str(), needle) {
            let by = if is_like_digest(needle) {
                digest_hex
            } else {
                "[redacted]"
            };
            out = replace_all(out.as_str(), needle, by);
        } else {
            proof {
                replaced_without_occurrence(
                    out@,
                    needle@,
                    replacement(needle@, digest_hex@),
                );
            }
        }
        i = i + 1;
    }
    out
}

/// A text in which no needle occurs is left as it is.
pub proof fn a_sweep_touches_nothing_else(
    text: Seq<char>,
    needles: Seq<Seq<char>>,
    digest: Seq<char>,
)
    requires
        forall|i: int| 0 <= i < needles.len() ==> !occurs(text, #[trigger] needles[i]),
    ensures
        swept(text, needles, digest) == text,
{
    sweep_untouched(text, needles, digest, needles.len());
}

proof fn sweep_untouched(text: Seq<char>, needles: Seq<Seq<char>>, digest: Seq<char>, n: nat)
    requires
        n <= needles.len(),
        forall|i: int| 0 <= i < needles.len() ==> !occurs(text, #[trigger] needles[i]),
    ensures
        swept_upto(text, needles, digest, n) == text,
    decreases n,
{
    if n > 0 {
        sweep_untouched(text, needles, digest, (n - 1) as nat);
        replaced_without_occurrence(text, needles[n - 1], replacement(needles[n - 1], digest));
    }
}

/// Whether a needle can stand so that it overlaps a replacement: put at an
/// offset against it, the two agree wherever both have a character.
pub open spec fn can_touch(needle: Seq<char>, by: Seq<char>) -> bool {
    exists|k: int| #[trigger] touches_at(needle, by, k)
}

/// Whether a needle agrees with a replacement where it overlaps it, put `k`
/// characters behind its start.
pub open spec fn touches_at(needle: Seq<char>, by: Seq<char>, k: int) -> bool {
    &&& -(needle.len() as int) < k < by.len()
    &&& forall|i: int|
        0 <= i < needle.len() && 0 <= k + i < by.len() ==> #[trigger] needle[i] == by[k + i]
}

/// How many characters a replacement leaves in place at the start of a text.
pub open spec fn kept(hay: Seq<char>, needle: Seq<char>) -> nat
    decreases hay.len(),
{
    if hay.len() == 0 || stands_at(hay, needle, 0) {
        0
    } else {
        1 + kept(hay.skip(1), needle)
    }
}

/// Before the first match a replacement leaves a text as it is, and then comes
/// what the match is replaced by.
proof fn kept_then_replaced(hay: Seq<char>, needle: Seq<char>, by: Seq<char>)
    requires
        needle.len() > 0,
    ensures
        ({
            let k = kept(hay, needle) as int;
            let r = replaced(hay, needle, by);
            &&& 0 <= k <= hay.len()
            &&& k <= r.len()
            &&& r.take(k) == hay.take(k)
            &&& k < hay.len() ==> k + by.len() <= r.len() && r.subrange(k, k + by.len() as int)
                == by
            &&& k == hay.len() ==> r == hay
        }),
    decreases hay.len(),
{
    let r = replaced(hay, needle, by);
    if hay.len() == 0 {
        assert(r.take(0) =~= hay.take(0));
    } else if stands_at(hay, needle, 0) {
        assert(r.take(0) =~= hay.take(0));
        assert(r.subrange(0, by.len() as int) =~= by);
    } else {
        let rest = hay.skip(1);
        kept_then_replaced(rest, needle, by);
        let k = kept(hay, needle) as int;
        let t = replaced(rest, needle, by);
        assert(r == seq![hay[0]] + t);
        assert(r.take(k) =~= seq![hay[0]] + t.take(k - 1));
        assert(hay.take(k) =~= seq![hay[0]] + rest.take(k - 1));
        if k < hay.len() {
            assert(r.subrange(k, k + by.len() as int) =~= t.subrange(
                k - 1,
                k - 1 + by.len() as int,
            ));
        } else {
            assert(r =~= hay);
        }
    }
}

/// What occurs after a replacement and cannot overlap what was put in occurred
/// before it, and is not what was replaced.
proof fn occurrence_survives(
    hay: Seq<char>,
    needle: Seq<char>,
    by: Seq<char>,
    other: Seq<char>,
    p: int,
)
    requires
        needle.len() > 0,
        by.len() > 0,
        other.len() > 0,
        !can_touch(other, by),
        stands_at(replaced(hay, needle, by), other, p),
    ensures
        occurs(hay, other),
        other != needle,
    decreases hay.len(),
{
    let r = replaced(hay, needle, by);
    if hay.len() == 0 {
    } else if stands_at(hay, needle, 0) {
        let t = replaced(hay.skip(needle.len() as int), needle, by);
        if p < by.len() {
            assert forall|i: int|
                0 <= i < other.len() && 0 <= p + i < by.len() implies #[trigger] other[i] == by[p
                + i] by {
                assert(r.subrange(p, p + other.len() as int)[i] == r[p + i]);
            }
            assert(touches_at(other, by, p));
        } else {
            let q = p - by.len();
            assert(t.subrange(q, q + other.len() as int) =~= r.subrange(
                p,
                p + other.len() as int,
            ));
            occurrence_survives(hay.skip(needle.len() as int), needle, by, other, q);
            let rest = hay.skip(needle.len() as int);
            let j = choose|j: int| stands_at(rest, other, j);
            assert(hay.subrange(needle.len() + j, needle.len() + j + other.len()) =~= rest.subrange(
                j,
                j + other.len() as int,
            ));
            assert(stands_at(hay, other, needle.len() + j));
        }
    } else {
        let rest = hay.skip(1);
        let t = replaced(rest, needle, by);
        if p > 0 {
            let q = p - 1;
            assert(t.subrange(q, q + other.len() as int) =~= r.subrange(
                p,
                p + other.len() as int,
            ));
            occurrence_survives(rest, needle, by, other, q);
            let j = choose|j: int| stands_at(rest, other, j);
            assert(hay.subrange(1 + j, 1 + j + other.len()) =~= rest.subrange(
                j,
                j + other.len() as int,
            ));
            assert(stands_at(hay, other, 1 + j));
        } else {
            kept_then_replaced(hay, needle, by);
            let k = kept(hay, needle) as int;
            if other.len() <= k {
                assert(hay.subrange(0, other.len() as int) =~= r.subrange(
                    0,
                    other.len() as int,
                )) by {
                    assert forall|i: int| 0 <= i < other.len() implies hay[i] == r[i] by {
                        assert(r.take(k)[i] == hay.take(k)[i]);
                    }
                }
                assert(stands_at(hay, other, 0));
            } else if k == hay.len() {
                assert(stands_at(hay, other, 0));
            } else {
                assert forall|i: int|
                    0 <= i < other.len() && 0 <= -k + i < by.len() implies #[trigger] other[i]
                    == by[-k + i] by {
                    assert(r.subrange(0, other.len() as int)[i] == r[i]);
                    assert(r.subrange(k, k + by.len() as int)[i - k] == r[i]);
                }
                assert(touches_at(other, by, -k));
            }
        }
    }
}

/// After a sweep no needle is left anywhere, where no needle can overlap what
/// is put in for one.
pub proof fn a_sweep_leaves_no_needle(
    text: Seq<char>,
    needles: Seq<Seq<char>>,
    digest: Seq<char>,
)
    requires
        digest.len() > 0,
        forall|i: int| 0 <= i < needles.len() ==> (#[trigger] needles[i]).len() > 0,
        forall|i: int, j: int|
            0 <= i < needles.len() && 0 <= j < needles.len() ==> !can_touch(
                #[trigger] needles[i],
                replacement(#[trigger] needles[j], digest),
            ),
    ensures
        forall|i: int|
            0 <= i < needles.len() ==> !occurs(
                swept(text, needles, digest),
                #[trigger] needles[i],
            ),
{
    no_needle_left(text, needles, digest, needles.len());
}

proof fn no_needle_left(text: Seq<char>, needles: Seq<Seq<char>>, digest: Seq<char>, n: nat)
    requires
        n <= needles.len(),
        digest.len() > 0,
        forall|i: int| 0 <= i < needles.len() ==> (#[trigger] needles[i]).len() > 0,
        forall|i: int, j: int|
            0 <= i < needles.len() && 0 <= j < needles.len() ==> !can_touch(
                #[trigger] needles[i],
                replacement(#[trigger] needles[j], digest),
            ),
    ensures
        forall|i: int|
            0 <= i < n ==> !occurs(
                swept_upto(text, needles, digest, n),
                #[trigger] needles[i],
            ),
    decreases n,
{
    if n > 0 {
        no_needle_left(text, needles, digest, (n - 1) as nat);
        let t = swept_upto(text, needles, digest, (n - 1) as nat);
        let needle = needles[n - 1];
        let by = replacement(needle, digest);
        reveal_strlit("[redacted]");
        assert forall|i: int| 0 <= i < n implies !occurs(
            swept_upto(text, needles, digest, n),
            #[trigger] needles[i],
        ) by {
            let r = swept_upto(text, needles, digest, n);
            if occurs(r, needles[i]) {
                let p = choose|p: int| stands_at(r, needles[i], p);
                occurrence_survives(t, needle, by, needles[i], p);
                if i < n - 1 {
                    assert(!occurs(t, needles[i]));
                }
            }
        }
    }
}

// ---------------------------------------------------------- projections ----

/// Whether the members of an object project a contribution: they name it.
pub open spec fn projects(fields: Seq<(Seq<char>, JsonView)>, id: Seq<char>) -> bool {
    text_value(member(JsonView::Object(fields), "contribution_id"@)) == Some(id)
}

/// A document in which every projection of a contribution has the placeholder
/// body and the current digest, where it has a body and a digest.
pub open spec fn redacted_json(
    j: JsonView,
    id: Seq<char>,
    parts: JsonView,
    digest: Seq<char>,
) -> JsonView
    decreases j,
{
    match j {
        JsonView::List(items) => JsonView::List(
            Seq::new(
                items.len(),
                |i: int|
                    if 0 <= i < items.len() {
                        redacted_json(items[i], id, parts, digest)
                    } else {
                        JsonView::Null
                    },
            ),
        ),
        JsonView::Object(fields) => JsonView::Object(
            Seq::new(
                fields.len(),
                |i: int|
                    if 0 <= i < fields.len() {
                        (
                            fields[i].0,
                            if projects(fields, id) && fields[i].0 == "body_parts"@ {
                                parts
                            } else if projects(fields, id) && fields[i].0 == "content_digest"@ {
                                JsonView::Text(digest)
                            } else {
                                redacted_json(fields[i].1, id, parts, digest)
                            },
                        )
                    } else {
                        (Seq::empty(), JsonView::Null)
                    },
            ),
        ),
        _ => j,
    }
}

/// Whether no object of a document projects a contribution.
pub open spec fn inert(j: JsonView, id: Seq<char>) -> bool
    decreases j,
{
    match j {
        JsonView::List(items) => forall|i: int|
            0 <= i < items.len() ==> inert(#[trigger] items[i], id),
        JsonView::Object(fields) => !projects(fields, id) && forall|i: int|
            0 <= i < fields.len() ==> inert((#[trigger] fields[i]).1, id),
        _ => true,
    }
}

/// Whether every projection of a contribution in a document has the placeholder
/// body and the current digest, where it has a body and a digest.
pub open spec fn erased(j: JsonView, id: Seq<char>, parts: JsonView, digest: Seq<char>) -> bool
    decreases j,
{
    match j {
        JsonView::List(items) => forall|i: int|
            0 <= i < items.len() ==> erased(#[trigger] items[i], id, parts, digest),
        JsonView::Object(fields) => forall|i: int|
            0 <= i < fields.len() ==> {
                &&& projects(fields, id) && (#[trigger] fields[i]).0 == "body_parts"@
                    ==> fields[i].1 == parts
                &&& projects(fields, id) && fields[i].0 == "content_digest"@ ==> fields[i].1
                    == JsonView::Text(digest)
                &&& erased(fields[i].1, id, parts, digest)
            },
        _ => true,
    }
}

/// What does not project a contribution is left as it is.
pub proof fn inert_is_left(j: JsonView, id: Seq<char>, parts: JsonView, digest: Seq<char>)
    requires
        inert(j, id),
    ensures
        redacted_json(j, id, parts, digest) == j,
        erased(j, id, parts, digest),
    decreases j,
{
    match j {
        JsonView::List(items) => {
            assert forall|i: int| 0 <= i < items.len() implies redacted_json(
                #[trigger] items[i],
                id,
                parts,
                digest,
            ) == items[i] && erased(items[i], id, parts, digest) by {
                inert_is_left(items[i], id, parts, digest);
            }
            assert(redacted_json(j, id, parts, digest)->List_0 =~= items);
        },
        JsonView::Object(fields) => {
            assert forall|i: int| 0 <= i < fields.len() implies redacted_json(
                (#[trigger] fields[i]).1,
                id,
                parts,
                digest,
            ) == fields[i].1 && erased(fields[i].1, id, parts, digest) by {
                inert_is_left(fields[i].1, id, parts, digest);
            }
            assert(redacted_json(j, id, parts, digest)->Object_0 =~= fields);
        },
        _ => {},
    }
}

/// Redacting leaves the member that names a contribution, and so what projects
/// it.
proof fn projection_stays(
    fields: Seq<(Seq<char>, JsonView)>,
    after: Seq<(Seq<char>, JsonView)>,
    id: Seq<char>,
    parts: JsonView,
    digest: Seq<char>,
)
    requires
        JsonView::Object(after) == redacted_json(JsonView::Object(fields), id, parts, digest),
    ensures
        projects(after, id) == projects(fields, id),
{
    let key = "contribution_id"@;
    reveal_strlit("contribution_id");
    reveal_strlit("body_parts");
    reveal_strlit("content_digest");
    assert(key.len() == 15 && "body_parts"@.len() == 10 && "content_digest"@.len() == 14);
    member_at_same(fields, after, key);
    if let Some(i) = member_at(fields, key) {
        member_at_bounds(fields, key);
        assert(after[i].1 == redacted_json(fields[i].1, id, parts, digest));
    }
}

proof fn member_at_bounds(fields: Seq<(Seq<char>, JsonView)>, key: Seq<char>)
    ensures
        member_at(fields, key) is Some ==> 0 <= member_at(fields, key)->0 < fields.len()
            && fields[member_at(fields, key)->0].0 == key,
    decreases fields.len(),
{
    if fields.len() > 0 {
        member_at_bounds(fields.drop_last(), key);
    }
}

proof fn member_at_same(
    a: Seq<(Seq<char>, JsonView)>,
    b: Seq<(Seq<char>, JsonView)>,
    key: Seq<char>,
)
    requires
        a.len() == b.len(),
        forall|i: int| 0 <= i < a.len() ==> (#[trigger] a[i]).0 == b[i].0,
    ensures
        member_at(a, key) == member_at(b, key),
    decreases a.len(),
{
    if a.len() > 0 {
        assert(a[a.len() - 1].0 == b[b.len() - 1].0);
        member_at_same(a.drop_last(), b.drop_last(), key);
    }
}

/// A redacted document holds no projection with its old body or digest.
pub proof fn redaction_erases(j: JsonView, id: Seq<char>, parts: JsonView, digest: Seq<char>)
    requires
        inert(parts, id),
    ensures
        erased(redacted_json(j, id, parts, digest), id, parts, digest),
    decreases j,
{
    let r = redacted_json(j, id, parts, digest);
    match j {
        JsonView::List(items) => {
            assert forall|i: int| 0 <= i < items.len() implies erased(
                #[trigger] r->List_0[i],
                id,
                parts,
                digest,
            ) by {
                redaction_erases(items[i], id, parts, digest);
            }
        },
        JsonView::Object(fields) => {
            let after = r->Object_0;
            projection_stays(fields, after, id, parts, digest);
            assert forall|i: int| 0 <= i < after.len() implies {
                &&& projects(after, id) && (#[trigger] after[i]).0 == "body_parts"@ ==> after[i].1
                    == parts
                &&& projects(after, id) && after[i].0 == "content_digest"@ ==> after[i].1
                    == JsonView::Text(digest)
                &&& erased(after[i].1, id, parts, digest)
            } by {
                redaction_erases(fields[i].1, id, parts, digest);
                inert_is_left(parts, id, parts, digest);
                reveal_strlit("body_parts");
                reveal_strlit("content_digest");
                assert("body_parts"@.len() != "content_digest"@.len());
            }
        },
        _ => {},
    }
}

/// A document without old bodies and digests is left as it is.
proof fn erased_is_left(j: JsonView, id: Seq<char>, parts: JsonView, digest: Seq<char>)
    requires
        erased(j, id, parts, digest),
    ensures
        redacted_json(j, id, parts, digest) == j,
    decreases j,
{
    match j {
        JsonView::List(items) => {
            assert forall|i: int| 0 <= i < items.len() implies redacted_json(
                #[trigger] items[i],
                id,
                parts,
                digest,
            ) == items[i] by {
                erased_is_left(items[i], id, parts, digest);
            }
            assert(redacted_json(j, id, parts, digest)->List_0 =~= items);
        },
        JsonView::Object(fields) => {
            assert forall|i: int| 0 <= i < fields.len() implies redacted_json(
                (#[trigger] fields[i]).1,
                id,
                parts,
                digest,
            ) == fields[i].1 by {
                erased_is_left(fields[i].1, id, parts, digest);
            }
            assert(redacted_json(j, id, parts, digest)->Object_0 =~= fields);
        },
        _ => {},
    }
}

/// Redacting twice is redacting once.
pub proof fn redaction_is_idempotent(j: JsonView, id: Seq<char>, parts: JsonView, digest: Seq<char>)
    requires
        inert(parts, id),
    ensures
        redacted_json(redacted_json(j, id, parts, digest), id, parts, digest) == redacted_json(
            j,
            id,
            parts,
            digest,
        ),
{
    redaction_erases(j, id, parts, digest);
    erased_is_left(redacted_json(j, id, parts, digest), id, parts, digest);
}

fn redacted(value: &Json, contribution_id: &str, parts: &Json, digest_hex: &str) -> (r: Json)
    ensures
        r@ == redacted_json(value@, contribution_id@, parts@, digest_hex@),
    decreases value,
{
    match value {
        Json::List(items) => {
            let ghost jv = value@;
            let ghost goal = redacted_json(jv, contribution_id@, parts@, digest_hex@)->List_0;
            let mut out: Vec<Json> = Vec::new();
            let mut i: usize = 0;
            while i < items.len()
                invariant
                    *value == Json::List(*items),
                    jv == value@,
                    jv is List,
                    jv->List_0.len() == items@.len(),
                    goal == redacted_json(jv, contribution_id@, parts@, digest_hex@)->List_0,
                    i <= items.len(),
                    out.len() == i,
                    forall|k: int| 0 <= k < i ==> json_view(#[trigger] out@[k]) == goal[k],
                decreases items.len() - i,
            {
                proof {
                    assert(decreases_to!(value => value->List_0));
                    assert(decreases_to!(value->List_0 => value->List_0@));
                    assert(jv->List_0[i as int] == json_view(items@[i as int]));
                }
                let item = redacted(&items[i], contribution_id, parts, digest_hex);
                out.push(item);
                i = i + 1;
            }
            let r = Json::List(out);
            proof {
                assert(r@->List_0 =~= goal);
            }
            r
        },
        Json::Object(fields) => {
            let ghost jv = value@;
            let ghost goal = redacted_json(jv, contribution_id@, parts@, digest_hex@)->Object_0;
            let is_this = match json::as_text(json::get(value, "contribution_id")) {
                Some(s) => same(s.as_str(), contribution_id),
                None => false,
            };
            proof {
                assert(is_this == projects(jv->Object_0, contribution_id@));
            }
            let mut out: Vec<(String, Json)> = Vec::new();
            let mut i: usize = 0;
            while i < fields.len()
                invariant
                    *value == Json::Object(*fields),
                    jv == value@,
                    jv is Object,
                    jv->Object_0.len() == fields@.len(),
                    goal == redacted_json(jv, contribution_id@, parts@, digest_hex@)->Object_0,
                    is_this == projects(jv->Object_0, contribution_id@),
                    i <= fields.len(),
                    out.len() == i,
                    forall|k: int|
                        0 <= k < i ==> (#[trigger] out@[k]).0@ == goal[k].0 && json_view(out@[k].1)
                            == goal[k].1,
                decreases fields.len() - i,
            {
                proof {
                    assert(decreases_to!(value => value->Object_0));
                    assert(decreases_to!(value->Object_0 => value->Object_0@));
                    assert(decreases_to!(fields@[i as int] => fields@[i as int].1));
                    assert(jv->Object_0[i as int] == (
                        fields@[i as int].0@,
                        json_view(fields@[i as int].1),
                    ));
                }
                let key = fields[i].0.clone();
                let item = if is_this && same(key.as_str(), "body_parts") {
                    parts.copy()
                } else if is_this && same(key.as_str(), "content_digest") {
                    Json::Text(digest_hex.to_owned())
                } else {
                    redacted(&fields[i].1, contribution_id, parts, digest_hex)
                };
                out.push((key, item));
                i = i + 1;
            }
            let r = Json::Object(out);
            proof {
                assert(r@->Object_0 =~= goal);
            }
            r
        },
        _ => value.copy(),
    }
}

/// Puts the placeholder body and the current digest into every projection of a
/// contribution. The placeholder itself projects nothing.
pub fn redact_projections(
    value: &mut Json,
    contribution_id: &str,
    redacted_parts: &Json,
    digest_hex: &str,
)
    requires
        inert(redacted_parts@, contribution_id@),
    ensures
        final(value)@ == redacted_json(
            old(value)@,
            contribution_id@,
            redacted_parts@,
            digest_hex@,
        ),
        erased(final(value)@, contribution_id@, redacted_parts@, digest_hex@),
{
    let next = redacted(value, contribution_id, redacted_parts, digest_hex);
    proof {
        redaction_erases(value@, contribution_id@, redacted_parts@, digest_hex@);
    }
    *value = next;
}

/// Redacting keeps every key where it is.
proof fn redaction_keeps_form(j: JsonView, id: Seq<char>, parts: JsonView, digest: Seq<char>)
    requires
        well_formed(j),
        well_formed(parts),
    ensures
        well_formed(redacted_json(j, id, parts, digest)),
    decreases j,
{
    let r = redacted_json(j, id, parts, digest);
    match j {
        JsonView::List(items) => {
            assert forall|i: int| 0 <= i < items.len() implies well_formed(
                #[trigger] r->List_0[i],
            ) by {
                assert(well_formed(items[i]));
                redaction_keeps_form(items[i], id, parts, digest);
            }
        },
        JsonView::Object(fields) => {
            let after = r->Object_0;
            assert forall|i: int| 0 <= i < fields.len() implies well_formed(
                (#[trigger] after[i]).1,
            ) by {
                assert(well_formed(fields[i].1));
                redaction_keeps_form(fields[i].1, id, parts, digest);
            }
            assert forall|i: int, k: int| 0 <= i < k < after.len() implies before(
                (#[trigger] after[i]).0,
                (#[trigger] after[k]).0,
            ) by {
                assert(before(fields[i].0, fields[k].0));
            }
        },
        _ => {},
    }
}

// ------------------------------------------------------------ documents ----

/// Whether a text names a contribution or holds a needle.
pub open spec fn mentions(text: Seq<char>, id: Seq<char>, needles: Seq<Seq<char>>) -> bool {
    occurs(text, id) || exists|i: int|
        0 <= i < needles.len() && occurs(text, #[trigger] needles[i])
}

/// What a stored document becomes, or `None` where it cannot be rendered: one
/// that mentions nothing of the contribution stays, what is not JSON is swept
/// as it is, and anything else is redacted and swept.
pub open spec fn rewritten(
    text: Seq<char>,
    id: Seq<char>,
    parts: JsonView,
    digest: Seq<char>,
    needles: Seq<Seq<char>>,
) -> Option<Seq<char>> {
    if !mentions(text, id, needles) {
        Some(text)
    } else {
        match parsed(text) {
            None => Some(swept(text, needles, digest)),
            Some(j) => match rendered(redacted_json(j, id, parts, digest)) {
                None => None,
                Some(t) => Some(swept(t, needles, digest)),
            },
        }
    }
}

fn text_mentions(text: &str, contribution_id: &str, needles: &Vec<String>) -> (r: bool)
    ensures
        r == mentions(text@, contribution_id@, views(needles@)),
{
    if contains(text, contribution_id) {
        return true;
    }
    let ghost list = views(needles@);
    let mut i: usize = 0;
    while i < needles.len()
        invariant
            i <= needles.len(),
            list == views(needles@),
            forall|j: int| 0 <= j < i ==> !occurs(text@, #[trigger] list[j]),
        decreases needles.len() - i,
    {
        proof {
            assert(list[i as int] == needles@[i as int]@);
        }
        if contains(text, needles[i].as_str()) {
            return true;
        }
        i = i + 1;
    }
    false
}

/// The new text where it differs from the old one.
pub open spec fn changed(text: Seq<char>, next: Seq<char>) -> Option<Seq<char>> {
    if next == text {
        None
    } else {
        Some(next)
    }
}

fn if_changed(text: &str, next: String) -> (r: Option<String>)
    ensures
        crate::text::opt_view(r) == changed(text@, next@),
{
    if same(next.as_str(), text) {
        None
    } else {
        Some(next)
    }
}

/// Rewrites one stored document. The answer is its new text, or `None` where
/// nothing changed.
pub fn rewrite_json(
    text: &str,
    contribution_id: &str,
    redacted_parts: &Json,
    digest_hex: &str,
    needles: &Vec<String>,
) -> (r: Result<Option<String>, Problem>)
    requires
        inert(redacted_parts@, contribution_id@),
        well_formed(redacted_parts@),
    ensures
        match rewritten(
            text@,
            contribution_id@,
            redacted_parts@,
            digest_hex@,
            views(needles@),
        ) {
            None => r is Err && r->Err_0@ == internal_view(),
            Some(t) => r is Ok && crate::text::opt_view(r->Ok_0) == changed(text@, t),
        },
{
    if !text_mentions(text, contribution_id, needles) {
        return Ok(None);
    }
    let mut value = match parse(text) {
        None => {
            let next = sweep_text(text, needles, digest_hex);
            return Ok(if_changed(text, next));
        },
        Some(j) => j,
    };
    proof {
        redaction_keeps_form(value@, contribution_id@, redacted_parts@, digest_hex@);
    }
    redact_projections(&mut value, contribution_id, redacted_parts, digest_hex);
    match render(&value) {
        None => Err(internal()),
        Some(t) => {
            let next = sweep_text(t.as_str(), needles, digest_hex);
            Ok(if_changed(text, next))
        },
    }
}

// ------------------------------------------------------ retained copies ----

/// The texts that may hold a copy of what a contribution held: the payloads of
/// events, the stored results of commands, the columns of dependent records,
/// and the details of the audit log.
#[derive(Debug)]
pub struct Retained {
    pub events: Vec<String>,
    pub results: Vec<String>,
    pub literals: Vec<String>,
    pub audits: Vec<String>,
}

/// What of the retained texts changes, text by text.
#[derive(Debug)]
pub struct Scrubbed {
    pub events: Vec<Option<String>>,
    pub results: Vec<Option<String>>,
    pub literals: Vec<Option<String>>,
    pub audits: Vec<Option<String>>,
}

/// Whether a list says for each text what sweeping it changes.
pub open spec fn sweeps(
    out: Seq<Option<String>>,
    texts: Seq<String>,
    needles: Seq<Seq<char>>,
    digest: Seq<char>,
) -> bool {
    &&& out.len() == texts.len()
    &&& forall|i: int|
        0 <= i < texts.len() ==> crate::text::opt_view(#[trigger] out[i]) == changed(
            texts[i]@,
            swept(texts[i]@, needles, digest),
        )
}

/// Sweeps the needles out of every text. The answer holds the texts that
/// change.
pub fn sweep_literals(texts: &Vec<String>, needles: &Vec<String>, digest_hex: &str) -> (out: Vec<
    Option<String>,
>)
    ensures
        sweeps(out@, texts@, views(needles@), digest_hex@),
{
    let mut out: Vec<Option<String>> = Vec::new();
    let mut i: usize = 0;
    while i < texts.len()
        invariant
            i <= texts.len(),
            out.len() == i,
            forall|j: int|
                0 <= j < i ==> crate::text::opt_view(#[trigger] out@[j]) == changed(
                    texts@[j]@,
                    swept(texts@[j]@, views(needles@), digest_hex@),
                ),
        decreases texts.len() - i,
    {
        let next = sweep_text(texts[i].as_str(), needles, digest_hex);
        out.push(if_changed(texts[i].as_str(), next));
        i = i + 1;
    }
    out
}

/// Whether a text can be rewritten: it renders, and, where it has to stay
/// JSON, what it becomes still is.
pub open spec fn rewritable(
    text: Seq<char>,
    id: Seq<char>,
    parts: JsonView,
    digest: Seq<char>,
    needles: Seq<Seq<char>>,
    stays_json: bool,
) -> bool {
    match rewritten(text, id, parts, digest, needles) {
        None => false,
        Some(t) => stays_json && t != text ==> parsed(t) is Some,
    }
}

/// Whether a list says for each text what rewriting it changes.
pub open spec fn rewrites(
    out: Seq<Option<String>>,
    texts: Seq<String>,
    id: Seq<char>,
    parts: JsonView,
    digest: Seq<char>,
    needles: Seq<Seq<char>>,
) -> bool {
    &&& out.len() == texts.len()
    &&& forall|i: int|
        0 <= i < texts.len() ==> {
            &&& rewritten(texts[i]@, id, parts, digest, needles) is Some
            &&& crate::text::opt_view(#[trigger] out[i]) == changed(
                texts[i]@,
                rewritten(texts[i]@, id, parts, digest, needles)->0,
            )
        }
}

/// Whether every text can be rewritten.
pub open spec fn all_rewritable(
    texts: Seq<String>,
    id: Seq<char>,
    parts: JsonView,
    digest: Seq<char>,
    needles: Seq<Seq<char>>,
    stays_json: bool,
) -> bool {
    forall|i: int|
        0 <= i < texts.len() ==> rewritable(
            (#[trigger] texts[i])@,
            id,
            parts,
            digest,
            needles,
            stays_json,
        )
}

fn rewrite_all(
    texts: &Vec<String>,
    contribution_id: &str,
    redacted_parts: &Json,
    digest_hex: &str,
    needles: &Vec<String>,
    stays_json: bool,
) -> (r: Result<Vec<Option<String>>, Problem>)
    requires
        inert(redacted_parts@, contribution_id@),
        well_formed(redacted_parts@),
    ensures
        if all_rewritable(
            texts@,
            contribution_id@,
            redacted_parts@,
            digest_hex@,
            views(needles@),
            stays_json,
        ) {
            &&& r is Ok
            &&& rewrites(
                r->Ok_0@,
                texts@,
                contribution_id@,
                redacted_parts@,
                digest_hex@,
                views(needles@),
            )
        } else {
            r is Err && r->Err_0@ == internal_view()
        },
{
    let mut out: Vec<Option<String>> = Vec::new();
    let mut i: usize = 0;
    while i < texts.len()
        invariant
            inert(redacted_parts@, contribution_id@),
            well_formed(redacted_parts@),
            i <= texts.len(),
            out.len() == i,
            forall|j: int|
                0 <= j < i ==> rewritable(
                    (#[trigger] texts@[j])@,
                    contribution_id@,
                    redacted_parts@,
                    digest_hex@,
                    views(needles@),
                    stays_json,
                ),
            forall|j: int|
                0 <= j < i ==> crate::text::opt_view(#[trigger] out@[j]) == changed(
                    texts@[j]@,
                    rewritten(
                        texts@[j]@,
                        contribution_id@,
                        redacted_parts@,
                        digest_hex@,
                        views(needles@),
                    )->0,
                ),
        decreases texts.len() - i,
    {
        let ghost can = rewritable(
            texts@[i as int]@,
            contribution_id@,
            redacted_parts@,
            digest_hex@,
            views(needles@),
            stays_json,
        );
        let next = match rewrite_json(
            texts[i].as_str(),
            contribution_id,
            redacted_parts,
            digest_hex,
            needles,
        ) {
            Ok(next) => next,
            Err(e) => {
                assert(!can);
                return Err(e);
            },
        };
        if stays_json {
            if let Some(t) = &next {
                if parse(t.as_str()).is_none() {
                    assert(!can);
                    return Err(internal());
                }
            }
        }
        assert(can);
        out.push(next);
        i = i + 1;
    }
    Ok(out)
}

/// Takes a contribution's text out of everything that is retained: events and
/// stored results are rewritten, everything else is swept. Either all of it is
/// answered or, where one document cannot be rewritten, none.
pub fn scrub_retention_graph(
    retained: &Retained,
    contribution_id: &str,
    redacted_parts: &Json,
    digest_hex: &str,
    needles: &Vec<String>,
) -> (r: Result<Scrubbed, Problem>)
    requires
        inert(redacted_parts@, contribution_id@),
        well_formed(redacted_parts@),
    ensures
        scrub_outcome(
            r,
            *retained,
            contribution_id@,
            redacted_parts@,
            digest_hex@,
            views(needles@),
        ),
{
    let events = rewrite_all(
        &retained.events,
        contribution_id,
        redacted_parts,
        digest_hex,
        needles,
        true,
    )?;
    let results = rewrite_all(
        &retained.results,
        contribution_id,
        redacted_parts,
        digest_hex,
        needles,
        false,
    )?;
    let literals = sweep_literals(&retained.literals, needles, digest_hex);
    let audits = sweep_literals(&retained.audits, needles, digest_hex);
    Ok(Scrubbed { events, results, literals, audits })
}

/// What scrubbing answers.
pub open spec fn scrub_outcome(
    r: Result<Scrubbed, Problem>,
    retained: Retained,
    id: Seq<char>,
    parts: JsonView,
    digest: Seq<char>,
    needles: Seq<Seq<char>>,
) -> bool {
    if all_rewritable(retained.events@, id, parts, digest, needles, true) && all_rewritable(
        retained.results@,
        id,
        parts,
        digest,
        needles,
        false,
    ) {
        &&& r is Ok
        &&& rewrites(r->Ok_0.events@, retained.events@, id, parts, digest, needles)
        &&& rewrites(r->Ok_0.results@, retained.results@, id, parts, digest, needles)
        &&& sweeps(r->Ok_0.literals@, retained.literals@, needles, digest)
        &&& sweeps(r->Ok_0.audits@, retained.audits@, needles, digest)
    } else {
        r is Err && r->Err_0@ == internal_view()
    }
}

/// Whatever a stored document becomes, no needle is left in it, where no
/// needle can overlap what is put in for one.
pub proof fn no_document_keeps_a_needle(
    text: Seq<char>,
    id: Seq<char>,
    parts: JsonView,
    digest: Seq<char>,
    needles: Seq<Seq<char>>,
)
    requires
        digest.len() > 0,
        forall|i: int| 0 <= i < needles.len() ==> (#[trigger] needles[i]).len() > 0,
        forall|i: int, j: int|
            0 <= i < needles.len() && 0 <= j < needles.len() ==> !can_touch(
                #[trigger] needles[i],
                replacement(#[trigger] needles[j], digest),
            ),
        rewritten(text, id, parts, digest, needles) is Some,
    ensures
        forall|i: int|
            0 <= i < needles.len() ==> !occurs(
                rewritten(text, id, parts, digest, needles)->0,
                #[trigger] needles[i],
            ),
{
    if mentions(text, id, needles) {
        match parsed(text) {
            None => {
                a_sweep_leaves_no_needle(text, needles, digest);
            },
            Some(j) => {
                a_sweep_leaves_no_needle(
                    rendered(redacted_json(j, id, parts, digest))->0,
                    needles,
                    digest,
                );
            },
        }
    }
}

/// What stands in for a needle is the new digest where the needle has the form
/// of one, and says so otherwise; a digest is of sixty-four lower-case hex
/// digits, and nothing else is.
pub proof fn a_digest_is_followed_and_a_text_is_blanked(needle: Seq<char>, digest: Seq<char>)
    ensures
        needle.len() == 64 && (forall|i: int|
            0 <= i < 64 ==> ('0' <= #[trigger] needle[i] <= '9' || 'a' <= needle[i] <= 'f'))
            ==> replacement(needle, digest) == digest,
        needle.len() != 64 ==> replacement(needle, digest) == "[redacted]"@,
        forall|i: int|
            0 <= i < needle.len() && !('0' <= #[trigger] needle[i] <= '9' || 'a' <= needle[i]
                <= 'f') ==> replacement(needle, digest) == "[redacted]"@,
{
    assert forall|i: int|
        0 <= i < needle.len() && !('0' <= #[trigger] needle[i] <= '9' || 'a' <= needle[i]
            <= 'f') implies replacement(needle, digest) == "[redacted]"@ by {
        assert(!hex_digit(needle[i]));
    }
    if needle.len() == 64 && (forall|i: int|
        0 <= i < 64 ==> ('0' <= #[trigger] needle[i] <= '9' || 'a' <= needle[i] <= 'f')) {
        assert forall|i: int| 0 <= i < needle.len() implies hex_digit(#[trigger] needle[i]) by {}
    }
}

/// Bytes are counted character by character: lengths add up, a character takes
/// one to four, and an ASCII text has as many bytes as characters.
pub proof fn bytes_add_up(a: Seq<char>, b: Seq<char>)
    ensures
        byte_len(a + b) == byte_len(a) + byte_len(b),
        a.len() <= byte_len(a) <= 4 * a.len(),
        (forall|i: int| 0 <= i < a.len() ==> (#[trigger] a[i] as u32) < 0x80) ==> byte_len(a)
            == a.len(),
    decreases b.len(), a.len(),
{
    if b.len() == 0 {
        assert(a + b =~= a);
        if a.len() > 0 {
            bytes_add_up(a.drop_last(), b);
        }
    } else {
        assert((a + b).drop_last() =~= a + b.drop_last());
        bytes_add_up(a, b.drop_last());
    }
}

/// Every text of every part is among the texts of the parts.
proof fn texts_of_each(parts: Seq<Part>, i: int, x: Seq<char>)
    requires
        0 <= i < parts.len(),
        part_texts(parts[i]).contains(x),
    ensures
        parts_texts(parts).contains(x),
    decreases parts.len(),
{
    let a = parts_texts(parts.drop_last());
    let b = part_texts(parts.last());
    if i == parts.len() - 1 {
        let k = choose|k: int| 0 <= k < b.len() && b[k] == x;
        assert((a + b)[a.len() + k] == x);
    } else {
        assert(parts.drop_last()[i] == parts[i]);
        texts_of_each(parts.drop_last(), i, x);
        let k = choose|k: int| 0 <= k < a.len() && a[k] == x;
        assert((a + b)[k] == x);
    }
}

proof fn texts_of_some(parts: Seq<Part>, x: Seq<char>) -> (i: int)
    requires
        parts_texts(parts).contains(x),
    ensures
        0 <= i < parts.len(),
        part_texts(parts[i]).contains(x),
    decreases parts.len(),
{
    let a = parts_texts(parts.drop_last());
    let b = part_texts(parts.last());
    let k = choose|k: int| 0 <= k < (a + b).len() && (a + b)[k] == x;
    if k < a.len() {
        assert(a[k] == x);
        texts_of_some(parts.drop_last(), x)
    } else {
        assert(b[k - a.len()] == x);
        parts.len() - 1
    }
}

/// What must not survive a redaction is every text of four bytes or more that a
/// part held, in a text part the text, in a data part its rendering and each text
/// inside it; of artifacts nothing; and the old digest where it moved. No more
/// than that goes, each once, and a longer one before a shorter.
pub proof fn every_text_is_a_needle(
    list: Seq<Seq<char>>,
    parts: Seq<Part>,
    digest: Seq<char>,
    rekeyed: bool,
    i: int,
    x: Seq<char>,
)
    requires
        needles_of(list, candidates(parts, digest, rekeyed)),
        0 <= i < parts.len(),
    ensures
        parts[i] matches Part::Text { text, .. } ==> (byte_len(text@) >= 4 ==> list.contains(
            text@,
        )),
        parts[i] matches Part::Data { value, .. } ==> (rendered(value@) is Some && byte_len(
            rendered(value@)->0,
        ) >= 4 ==> list.contains(rendered(value@)->0)),
        parts[i] matches Part::Data { value, .. } ==> (leaves_of(value@).contains(x) && byte_len(x)
            >= 4 ==> list.contains(x)),
        rekeyed && byte_len(digest) >= 4 ==> list.contains(digest),
        list.contains(x) ==> byte_len(x) >= 4,
        list.contains(x) && !(rekeyed && x == digest) ==> exists|k: int|
            0 <= k < parts.len() && (#[trigger] parts[k]) !is Artifact && part_texts(
                parts[k],
            ).contains(x),
        forall|a: int, b: int|
            0 <= a < b < list.len() ==> byte_len(#[trigger] list[a]) >= byte_len(
                #[trigger] list[b],
            ) && list[a] != list[b],
{
    let all = candidates(parts, digest, rekeyed);
    let t = parts_texts(parts);
    assert forall|y: Seq<char>| t.contains(y) implies all.contains(y) by {
        let k = choose|k: int| 0 <= k < t.len() && t[k] == y;
        assert(all[k] == y);
    }
    if rekeyed {
        assert(all[t.len() as int] == digest);
    }
    match parts[i] {
        Part::Text { text, .. } => {
            assert(part_texts(parts[i])[0] == text@);
            texts_of_each(parts, i, text@);
            assert(byte_len(text@) >= 4 ==> list.contains(text@));
        },
        Part::Data { value, .. } => {
            if rendered(value@) is Some {
                let s = rendered(value@)->0;
                assert(part_texts(parts[i])[0] == s);
                texts_of_each(parts, i, s);
                assert(byte_len(s) >= 4 ==> list.contains(s));
            }
            if leaves_of(value@).contains(x) {
                let l = leaves_of(value@);
                let k = choose|k: int| 0 <= k < l.len() && l[k] == x;
                assert(part_texts(parts[i])[k + 1] == x);
                texts_of_each(parts, i, x);
            }
        },
        Part::Artifact { .. } => {},
    }
    if list.contains(x) && !(rekeyed && x == digest) {
        let k = choose|k: int| 0 <= k < all.len() && all[k] == x;
        assert(k < t.len());
        assert(t[k] == x);
        let m = texts_of_some(parts, x);
        assert(part_texts(parts[m]).contains(x));
        assert(parts[m] !is Artifact);
    }
    assert forall|a: int, b: int| 0 <= a < b < list.len() implies byte_len(#[trigger] list[a])
        >= byte_len(#[trigger] list[b]) && list[a] != list[b] by {
        assert(needle_before(list[a], list[b]));
        crate::text::before_irreflexive(list[a]);
    }
}

/// The texts inside a value are the value itself where it is a text, and those
/// of every item of a list and of every member of an object.
pub proof fn every_leaf_is_reached(j: JsonView, i: int, x: Seq<char>)
    ensures
        j matches JsonView::Text(s) ==> leaves_of(j) == seq![s],
        j matches JsonView::List(items) && 0 <= i < items.len() && leaves_of(items[i]).contains(x)
            ==> leaves_of(j).contains(x),
        j matches JsonView::Object(fields) && 0 <= i < fields.len() && leaves_of(
            fields[i].1,
        ).contains(x) ==> leaves_of(j).contains(x),
{
    match j {
        JsonView::List(items) => {
            if 0 <= i < items.len() && leaves_of(items[i]).contains(x) {
                leaf_upto(j, items.len(), i, x);
            }
        },
        JsonView::Object(fields) => {
            if 0 <= i < fields.len() && leaves_of(fields[i].1).contains(x) {
                leaf_upto(j, fields.len(), i, x);
            }
        },
        _ => {},
    }
}

proof fn leaf_upto(j: JsonView, n: nat, i: int, x: Seq<char>)
    requires
        j is List || j is Object,
        j matches JsonView::List(items) ==> 0 <= i < n <= items.len() && leaves_of(
            items[i],
        ).contains(x),
        j matches JsonView::Object(fields) ==> 0 <= i < n <= fields.len() && leaves_of(
            fields[i].1,
        ).contains(x),
    ensures
        leaves_upto(j, n).contains(x),
    decreases n,
{
    let a = leaves_upto(j, (n - 1) as nat);
    let b = match j {
        JsonView::List(items) => leaves_of(items[n - 1]),
        JsonView::Object(fields) => leaves_of(fields[n - 1].1),
        _ => Seq::empty(),
    };
    assert(leaves_upto(j, n) == a + b);
    if i == n - 1 {
        let k = choose|k: int| 0 <= k < b.len() && b[k] == x;
        assert((a + b)[a.len() + k] == x);
    } else {
        leaf_upto(j, (n - 1) as nat, i, x);
        let k = choose|k: int| 0 <= k < a.len() && a[k] == x;
        assert((a + b)[k] == x);
    }
}

/// A scrub goes through every retained text: one that names neither the
/// contribution nor a needle stays, any other is handed back as it is to be, and
/// none is passed over. Where a document cannot be written again nothing is.
pub proof fn a_scrub_goes_through_all(
    r: Result<Scrubbed, Problem>,
    retained: Retained,
    id: Seq<char>,
    parts: JsonView,
    digest: Seq<char>,
    needles: Seq<Seq<char>>,
    i: int,
)
    requires
        scrub_outcome(r, retained, id, parts, digest, needles),
        r is Ok,
    ensures
        r->Ok_0.events@.len() == retained.events@.len(),
        r->Ok_0.results@.len() == retained.results@.len(),
        r->Ok_0.literals@.len() == retained.literals@.len(),
        r->Ok_0.audits@.len() == retained.audits@.len(),
        0 <= i < retained.events@.len() && !mentions(retained.events@[i]@, id, needles)
            ==> r->Ok_0.events@[i] is None,
        0 <= i < retained.results@.len() && !mentions(retained.results@[i]@, id, needles)
            ==> r->Ok_0.results@[i] is None,
        0 <= i < retained.events@.len() && r->Ok_0.events@[i] is Some ==> parsed(
            r->Ok_0.events@[i]->0@,
        ) is Some,
        0 <= i < retained.events@.len() && mentions(retained.events@[i]@, id, needles) && parsed(
            retained.events@[i]@,
        ) is None ==> (match r->Ok_0.events@[i] {
            Some(t) => t@ == swept(retained.events@[i]@, needles, digest),
            None => retained.events@[i]@ == swept(retained.events@[i]@, needles, digest),
        }),
        0 <= i < retained.results@.len() && mentions(retained.results@[i]@, id, needles) && parsed(
            retained.results@[i]@,
        ) is None ==> (match r->Ok_0.results@[i] {
            Some(t) => t@ == swept(retained.results@[i]@, needles, digest),
            None => retained.results@[i]@ == swept(retained.results@[i]@, needles, digest),
        }),
        0 <= i < retained.literals@.len() ==> (match r->Ok_0.literals@[i] {
            Some(t) => t@ == swept(retained.literals@[i]@, needles, digest),
            None => retained.literals@[i]@ == swept(retained.literals@[i]@, needles, digest),
        }),
        0 <= i < retained.audits@.len() ==> (match r->Ok_0.audits@[i] {
            Some(t) => t@ == swept(retained.audits@[i]@, needles, digest),
            None => retained.audits@[i]@ == swept(retained.audits@[i]@, needles, digest),
        }),
{
    let out = r->Ok_0;
    if 0 <= i < retained.events@.len() {
        assert(rewritable(retained.events@[i]@, id, parts, digest, needles, true));
        assert(crate::text::opt_view(out.events@[i]) == changed(
            retained.events@[i]@,
            rewritten(retained.events@[i]@, id, parts, digest, needles)->0,
        ));
    }
    if 0 <= i < retained.results@.len() {
        assert(crate::text::opt_view(out.results@[i]) == changed(
            retained.results@[i]@,
            rewritten(retained.results@[i]@, id, parts, digest, needles)->0,
        ));
    }
    if 0 <= i < retained.literals@.len() {
        assert(crate::text::opt_view(out.literals@[i]) == changed(
            retained.literals@[i]@,
            swept(retained.literals@[i]@, needles, digest),
        ));
    }
    if 0 <= i < retained.audits@.len() {
        assert(crate::text::opt_view(out.audits@[i]) == changed(
            retained.audits@[i]@,
            swept(retained.audits@[i]@, needles, digest),
        ));
    }
}

/// A redacted document keeps its form: a list its length, an object its members'
/// names in their order, and everything that is not the body or the digest of
/// the contribution.
pub proof fn redaction_keeps_the_rest(
    j: JsonView,
    id: Seq<char>,
    parts: JsonView,
    digest: Seq<char>,
    i: int,
)
    ensures
        j matches JsonView::List(items) ==> redacted_json(j, id, parts, digest) matches JsonView::List(
            done,
        ) && done.len() == items.len() && (0 <= i < items.len() ==> done[i] == redacted_json(
            items[i],
            id,
            parts,
            digest,
        )),
        j matches JsonView::Object(fields) ==> redacted_json(j, id, parts, digest) matches JsonView::Object(
            done,
        ) && done.len() == fields.len() && (0 <= i < fields.len() ==> {
            &&& done[i].0 == fields[i].0
            &&& !projects(fields, id) || (fields[i].0 != "body_parts"@ && fields[i].0
                != "content_digest"@) ==> done[i].1 == redacted_json(
                fields[i].1,
                id,
                parts,
                digest,
            )
            &&& projects(fields, id) && fields[i].0 == "body_parts"@ ==> done[i].1 == parts
            &&& projects(fields, id) && fields[i].0 == "content_digest"@ && fields[i].0
                != "body_parts"@ ==> done[i].1 == JsonView::Text(digest)
        }),
        j !is List && j !is Object ==> redacted_json(j, id, parts, digest) == j,
        j matches JsonView::Object(fields) ==> (projects(fields, id) <==> text_value(
            member(j, "contribution_id"@),
        ) == Some(id)),
{
}

/// No text is made up: a text inside a list is inside one of its items, one
/// inside an object inside one of its members, and what is neither text nor list
/// nor object has none.
pub proof fn no_leaf_is_made_up(j: JsonView, x: Seq<char>)
    requires
        leaves_of(j).contains(x),
    ensures
        j is Text || j is List || j is Object,
        j matches JsonView::Text(s) ==> x == s,
        j matches JsonView::List(items) ==> exists|i: int|
            0 <= i < items.len() && leaves_of(#[trigger] items[i]).contains(x),
        j matches JsonView::Object(fields) ==> exists|i: int|
            0 <= i < fields.len() && leaves_of((#[trigger] fields[i]).1).contains(x),
{
    match j {
        JsonView::List(items) => {
            let i = leaf_found(j, items.len(), x);
            assert(leaves_of(items[i]).contains(x));
        },
        JsonView::Object(fields) => {
            let i = leaf_found(j, fields.len(), x);
            assert(leaves_of(fields[i].1).contains(x));
        },
        _ => {},
    }
}

proof fn leaf_found(j: JsonView, n: nat, x: Seq<char>) -> (i: int)
    requires
        j is List || j is Object,
        j matches JsonView::List(items) ==> n <= items.len(),
        j matches JsonView::Object(fields) ==> n <= fields.len(),
        leaves_upto(j, n).contains(x),
    ensures
        0 <= i < n,
        j matches JsonView::List(items) ==> leaves_of(items[i]).contains(x),
        j matches JsonView::Object(fields) ==> leaves_of(fields[i].1).contains(x),
    decreases n,
{
    let a = leaves_upto(j, (n - 1) as nat);
    let b = match j {
        JsonView::List(items) => leaves_of(items[n - 1]),
        JsonView::Object(fields) => leaves_of(fields[n - 1].1),
        _ => Seq::empty(),
    };
    assert(leaves_upto(j, n) == a + b);
    let k = choose|k: int| 0 <= k < (a + b).len() && (a + b)[k] == x;
    if k < a.len() {
        assert(a[k] == x);
        leaf_found(j, (n - 1) as nat, x)
    } else {
        assert(b[k - a.len()] == x);
        n - 1
    }
}

} // verus!
