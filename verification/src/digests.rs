//! Digests are made outside the library, by a function of a kind, a schema and
//! a document that is handed in. What is said here of a digest is which
//! document it was made of, and of an answer which document was asked with.

use vstd::prelude::*;

use crate::json::{Json, JsonView};

verus! {

/// A digest function takes every document.
pub open spec fn digests_all<D: Fn(&str, &str, &Json) -> String>(digest: D) -> bool {
    forall|kind: &str, schema: &str, doc: &Json| #[trigger] digest.requires((kind, schema, doc))
}

/// Whether a text is what the digest function made of a document.
pub open spec fn digested<D: Fn(&str, &str, &Json) -> String>(
    digest: D,
    kind: Seq<char>,
    schema: Seq<char>,
    doc: JsonView,
    out: Seq<char>,
) -> bool {
    exists|k: &str, s: &str, j: &Json, o: String|
        {
            &&& k@ == kind
            &&& s@ == schema
            &&& j@ == doc
            &&& o@ == out
            &&& #[trigger] digest.ensures((k, s, j), o)
        }
}

/// A keyed digest: how it is written down, and its hexadecimal value.
#[derive(Debug)]
pub struct Keyed {
    pub text: String,
    pub hex: String,
}

/// A function of keyed digests makes the same of the same.
#[verifier::opaque]
pub open spec fn keys_agree<G: Fn(&str, &Json) -> Keyed>(keyed: G) -> bool {
    forall|s: &str, t: &str, a: &Json, b: &Json, x: Keyed, y: Keyed|
        #[trigger] keyed.ensures((s, a), x) && #[trigger] keyed.ensures((t, b), y) && s@ == t@ && a@
            == b@ ==> x.text@ == y.text@ && x.hex@ == y.hex@
}

/// A function of keyed digests takes every document and makes the same of the
/// same, and its values are no shorter than what identifiers are made of.
pub open spec fn keys_all<G: Fn(&str, &Json) -> Keyed>(keyed: G) -> bool {
    &&& forall|tag: &str, doc: &Json| #[trigger] keyed.requires((tag, doc))
    &&& keys_agree(keyed)
    &&& forall|tag: &str, doc: &Json, out: Keyed|
        #[trigger] keyed.ensures((tag, doc), out) ==> out.hex@.len() >= 32
}

/// Whether a text is how the keyed digest of a document is written down.
pub open spec fn keyed_text<G: Fn(&str, &Json) -> Keyed>(
    keyed: G,
    tag: Seq<char>,
    doc: JsonView,
    text: Seq<char>,
) -> bool {
    exists|t: &str, j: &Json, out: Keyed|
        {
            &&& t@ == tag
            &&& j@ == doc
            &&& out.text@ == text
            &&& #[trigger] keyed.ensures((t, j), out)
        }
}

/// Whether a text is the hexadecimal value of the keyed digest of a document.
pub open spec fn keyed_hex<G: Fn(&str, &Json) -> Keyed>(
    keyed: G,
    tag: Seq<char>,
    doc: JsonView,
    hex: Seq<char>,
) -> bool {
    exists|t: &str, j: &Json, out: Keyed|
        {
            &&& t@ == tag
            &&& j@ == doc
            &&& out.hex@ == hex
            &&& #[trigger] keyed.ensures((t, j), out)
        }
}

/// Whether a text and a value are those of the keyed digest of a document.
pub open spec fn keyed_both<G: Fn(&str, &Json) -> Keyed>(
    keyed: G,
    tag: Seq<char>,
    doc: JsonView,
    text: Seq<char>,
    hex: Seq<char>,
) -> bool {
    exists|t: &str, j: &Json, out: Keyed|
        {
            &&& t@ == tag
            &&& j@ == doc
            &&& out.text@ == text
            &&& out.hex@ == hex
            &&& #[trigger] keyed.ensures((t, j), out)
        }
}

/// Whether a text is what a command's own digest function made of it.
pub open spec fn command_digested<C: Fn(&Json) -> String>(
    canonical: C,
    doc: JsonView,
    text: Seq<char>,
) -> bool {
    exists|j: &Json, out: String|
        {
            &&& j@ == doc
            &&& out@ == text
            &&& #[trigger] canonical.ensures((j,), out)
        }
}

/// Whether `out` is what asking with a document came to.
pub open spec fn asked<T, F: FnOnce(&Json) -> T>(ask: F, doc: JsonView, out: T) -> bool {
    exists|j: &Json|
        {
            &&& j@ == doc
            &&& #[trigger] ask.ensures((j,), out)
        }
}

} // verus!
