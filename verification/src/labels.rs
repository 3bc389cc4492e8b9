//! Label-key normalization.
//!
//! The backend only accepts label keys that look like identifiers.  Arbitrary
//! attribute keys are made safe by replacing every grapheme cluster that is
//! not purely alphanumeric with one underscore, and by prefixing `key_` when
//! the sanitized key would otherwise start with an ASCII digit.

use vstd::prelude::*;
use unicode_segmentation::UnicodeSegmentation;

verus! {

/// What `char::is_alphanumeric` returns on characters outside ASCII.
pub uninterp spec fn unicode_alphanumeric(c: char) -> bool;

/// Whether `char::is_alphanumeric` holds of `c`.  Below 0x80 these are
/// exactly the ASCII digits and letters; above, the Unicode property.
pub open spec fn is_alphanumeric_char(c: char) -> bool {
    if (c as u32) < 0x80 {
        ('0' <= c && c <= '9') || ('a' <= c && c <= 'z') || ('A' <= c && c <= 'Z')
    } else {
        unicode_alphanumeric(c)
    }
}

/// Relies on `char::is_alphanumeric`: true exactly for characters with one
/// of the Unicode letter or digit general categories; on ASCII these are
/// the ranges 0-9, a-z and A-Z.
#[verifier::external_body]
fn char_is_alphanumeric(c: char) -> (r: bool)
    ensures
        r == is_alphanumeric_char(c),
        (c as u32) >= 0x80 ==> r == unicode_alphanumeric(c),
{
    c.is_alphanumeric()
}

/// A printable ASCII character: space through tilde.
pub open spec fn printable_ascii(c: char) -> bool {
    ' ' <= c && c <= '~'
}

pub open spec fn all_printable_ascii(s: Seq<char>) -> bool {
    forall|i: int| 0 <= i < s.len() ==> printable_ascii(#[trigger] s[i])
}

/// What `unicode_segmentation` yields on a string that is not purely
/// printable ASCII.
pub uninterp spec fn unicode_graphemes(s: Seq<char>) -> Seq<Seq<char>>;

/// The extended grapheme clusters of `s`, in order.  Printable ASCII has no
/// combining sequences, controls or CR/LF, so there every character is its
/// own cluster.
pub open spec fn graphemes_of(s: Seq<char>) -> Seq<Seq<char>> {
    if all_printable_ascii(s) {
        s.map_values(|c: char| seq![c])
    } else {
        unicode_graphemes(s)
    }
}

/// Relies on `UnicodeSegmentation::graphemes` (extended grapheme clusters,
/// UAX #29): the clusters partition the input in order and are nonempty,
/// and every printable-ASCII character is a cluster of its own.
#[verifier::external_body]
fn graphemes(s: &str) -> (r: Vec<String>)
    ensures
        r.deep_view() == graphemes_of(s@),
        !all_printable_ascii(s@) ==> r.deep_view() == unicode_graphemes(s@),
        r.deep_view().flatten() == s@,
        forall|i: int| 0 <= i < r.deep_view().len() ==> #[trigger] r.deep_view()[i].len() > 0,
{
    s.graphemes(true).map(|g| g.to_string()).collect()
}

/// One sanitization step: a grapheme cluster is kept when all of its
/// characters are alphanumeric, and becomes a single underscore otherwise.
pub open spec fn sanitize_grapheme(g: Seq<char>) -> Seq<char> {
    if forall|i: int| 0 <= i < g.len() ==> is_alphanumeric_char(#[trigger] g[i]) {
        g
    } else {
        seq!['_']
    }
}

/// The sanitized form of a whole string: each grapheme cluster kept or
/// replaced by one underscore.
pub open spec fn spec_sanitize(s: Seq<char>) -> Seq<char> {
    graphemes_of(s).flat_map(|g: Seq<char>| sanitize_grapheme(g))
}

pub open spec fn is_ascii_digit_char(c: char) -> bool {
    '0' <= c && c <= '9'
}

/// The normalized form of a label key: the empty string passes through;
/// otherwise the key is sanitized and, when the sanitized form starts with
/// an ASCII digit, prefixed with `key_`.
pub open spec fn spec_normalize(s: Seq<char>) -> Seq<char> {
    if s.len() == 0 {
        s
    } else {
        let t = spec_sanitize(s);
        if t.len() > 0 && is_ascii_digit_char(t[0]) {
            "key_"@ + t
        } else {
            t
        }
    }
}

/// Character-level sanitization, the form the cluster-level rule takes on
/// strings whose clusters are single characters.
pub open spec fn sanitize_char(c: char) -> char {
    if is_alphanumeric_char(c) {
        c
    } else {
        '_'
    }
}

pub open spec fn charwise_sanitize(s: Seq<char>) -> Seq<char> {
    s.map_values(|c: char| sanitize_char(c))
}

/// Sanitizing one grapheme cluster is idempotent: a kept cluster is kept
/// again, and the underscore that replaces a rejected cluster is itself
/// not alphanumeric, so it maps to an underscore again.
pub proof fn lemma_sanitize_grapheme_idempotent(g: Seq<char>)
    ensures
        sanitize_grapheme(sanitize_grapheme(g)) == sanitize_grapheme(g),
{
    if forall|i: int| 0 <= i < g.len() ==> is_alphanumeric_char(#[trigger] g[i]) {
    } else {
        assert(!is_alphanumeric_char(seq!['_'][0]));
    }
}

proof fn lemma_map_flat_map_sanitize(gs: Seq<Seq<char>>)
    ensures
        gs.map_values(|g: Seq<char>| sanitize_grapheme(g)).flat_map(
            |g: Seq<char>| sanitize_grapheme(g),
        ) == gs.flat_map(|g: Seq<char>| sanitize_grapheme(g)),
    decreases gs.len(),
{
    let f = |g: Seq<char>| sanitize_grapheme(g);
    if gs.len() == 0 {
        assert(gs.map_values(f) =~= gs);
    } else {
        let gs0 = gs.drop_last();
        lemma_map_flat_map_sanitize(gs0);
        assert(gs =~= gs0.push(gs.last()));
        assert(gs.map_values(f) =~= gs0.map_values(f).push(f(gs.last())));
        gs0.map_values(f).lemma_flat_map_push(f, f(gs.last()));
        gs0.lemma_flat_map_push(f, gs.last());
        lemma_sanitize_grapheme_idempotent(gs.last());
    }
}

/// Sanitization is idempotent on any key whose sanitized form re-segments
/// into exactly the sanitized clusters.  The segmenter's contract does not
/// promise that of every Unicode input, so the stability of the
/// re-segmentation stands as a premise; on printable ASCII it holds
/// outright, see `lemma_normalize_idempotent_ascii`.
pub proof fn lemma_sanitize_idempotent_when_segmentation_stable(s: Seq<char>)
    requires
        graphemes_of(spec_sanitize(s)) == graphemes_of(s).map_values(
            |g: Seq<char>| sanitize_grapheme(g),
        ),
    ensures
        spec_sanitize(spec_sanitize(s)) == spec_sanitize(s),
{
    lemma_map_flat_map_sanitize(graphemes_of(s));
}

/// On a printable-ASCII string, where every character is its own grapheme
/// cluster, sanitization acts character by character.
pub proof fn lemma_sanitize_ascii(s: Seq<char>)
    requires
        all_printable_ascii(s),
    ensures
        spec_sanitize(s) == charwise_sanitize(s),
    decreases s.len(),
{
    let sing = |c: char| seq![c];
    let f = |g: Seq<char>| sanitize_grapheme(g);
    if s.len() == 0 {
        assert(s.map_values(sing).flat_map(f) =~= charwise_sanitize(s));
    } else {
        let s0 = s.drop_last();
        let c = s.last();
        assert(all_printable_ascii(s0));
        lemma_sanitize_ascii(s0);
        assert(s.map_values(sing) =~= s0.map_values(sing).push(sing(c)));
        s0.map_values(sing).lemma_flat_map_push(f, sing(c));
        assert(sanitize_grapheme(seq![c]) =~= seq![sanitize_char(c)]);
        assert(graphemes_of(s0) == s0.map_values(sing));
        assert(charwise_sanitize(s) =~= charwise_sanitize(s0).push(sanitize_char(c)));
        assert(spec_sanitize(s) =~= charwise_sanitize(s));
    }
}

/// Sanitizing never widens a printable-ASCII string beyond printable ASCII:
/// kept characters come from the input and rejected ones become underscores.
proof fn lemma_charwise_sanitize_printable(s: Seq<char>)
    requires
        all_printable_ascii(s),
    ensures
        all_printable_ascii(charwise_sanitize(s)),
        charwise_sanitize(charwise_sanitize(s)) == charwise_sanitize(s),
{
    let t = charwise_sanitize(s);
    assert forall|i: int| 0 <= i < t.len() implies printable_ascii(#[trigger] t[i]) by {
        assert(t[i] == sanitize_char(s[i]));
    }
    assert forall|i: int| 0 <= i < t.len() implies #[trigger] charwise_sanitize(t)[i] == t[i] by {
        assert(t[i] == sanitize_char(s[i]));
        assert(!is_alphanumeric_char('_'));
    }
    assert(charwise_sanitize(t) =~= t);
}

/// Label normalization is idempotent on printable-ASCII keys:
/// `normalize(normalize(s)) == normalize(s)`.  (On other keys the rule is
/// idempotent cluster by cluster — `lemma_sanitize_grapheme_idempotent` —
/// and string-wide under stable re-segmentation —
/// `lemma_sanitize_idempotent_when_segmentation_stable`.)
pub proof fn lemma_normalize_idempotent_ascii(s: Seq<char>)
    requires
        all_printable_ascii(s),
    ensures
        spec_normalize(spec_normalize(s)) == spec_normalize(s),
{
    if s.len() == 0 {
    } else {
        lemma_sanitize_ascii(s);
        let t = charwise_sanitize(s);
        lemma_charwise_sanitize_printable(s);
        assert(t.len() == s.len());
        if t.len() > 0 && is_ascii_digit_char(t[0]) {
            let u = "key_"@ + t;
            reveal_strlit("key_");
            assert("key_"@.len() == 4);
            assert(u[0] == 'k' && u[1] == 'e' && u[2] == 'y' && u[3] == '_');
            assert(all_printable_ascii(u)) by {
                assert forall|i: int| 0 <= i < u.len() implies printable_ascii(
                    #[trigger] u[i],
                ) by {
                    if i >= 4 {
                        assert(u[i] == t[i - 4]);
                    }
                }
            }
            lemma_sanitize_ascii(u);
            assert(charwise_sanitize(u) =~= u) by {
                assert forall|i: int| 0 <= i < u.len() implies #[trigger] charwise_sanitize(
                    u,
                )[i] == u[i] by {
                    assert(charwise_sanitize(u)[i] == sanitize_char(u[i]));
                    if i >= 4 {
                        assert(u[i] == t[i - 4]);
                        assert(sanitize_char(t[i - 4]) == t[i - 4]);
                    }
                }
            }
            assert(!is_ascii_digit_char(u[0]));
            assert(spec_normalize(s) == u);
            assert(spec_normalize(u) == u);
        } else {
            lemma_sanitize_ascii(t);
            assert(spec_normalize(s) == t);
            if t.len() > 0 {
                assert(charwise_sanitize(t) == t);
                assert(spec_normalize(t) == t);
            } else {
                assert(spec_normalize(t) == t);
            }
        }
    }
}

/// The digit-leading rule: exactly the keys whose sanitized form starts
/// with an ASCII digit get the `key_` prefix; every other nonempty key
/// normalizes to its sanitized form unchanged.
pub proof fn lemma_digit_leading_rule(s: Seq<char>)
    requires
        s.len() > 0,
    ensures
        (spec_sanitize(s).len() > 0 && is_ascii_digit_char(spec_sanitize(s)[0])) ==> spec_normalize(
            s,
        ) == "key_"@ + spec_sanitize(s),
        !(spec_sanitize(s).len() > 0 && is_ascii_digit_char(spec_sanitize(s)[0]))
            ==> spec_normalize(s) == spec_sanitize(s),
{
}

/// Whether every character of the grapheme `g` is alphanumeric.
fn grapheme_all_alphanumeric(g: &str) -> (r: bool)
    ensures
        r == (forall|i: int| 0 <= i < g@.len() ==> is_alphanumeric_char(#[trigger] g@[i])),
{
    let n = g.unicode_len();
    let mut i: usize = 0;
    while i < n
        invariant
            n == g@.len(),
            i <= n,
            forall|j: int| 0 <= j < i ==> is_alphanumeric_char(#[trigger] g@[j]),
        decreases n - i,
    {
        if !char_is_alphanumeric(g.get_char(i)) {
            return false;
        }
        i = i + 1;
    }
    true
}

/// Replaces every grapheme cluster that is not purely alphanumeric with one
/// underscore.
pub fn sanitize_string(s: &str) -> (r: String)
    ensures
        r@ == spec_sanitize(s@),
{
    let gs = graphemes(s);
    let ghost gsv: Seq<Seq<char>> = gs.deep_view();
    let ghost f = |g: Seq<char>| sanitize_grapheme(g);
    let mut out = String::new();
    let mut i: usize = 0;
    proof {
        assert(gsv.take(0).flat_map(f) =~= Seq::<char>::empty());
    }
    while i < gs.len()
        invariant
            gsv == gs.deep_view(),
            gsv == graphemes_of(s@),
            i <= gs.len(),
            gsv.len() == gs.len(),
            out@ == gsv.take(i as int).flat_map(f),
            f == (|g: Seq<char>| sanitize_grapheme(g)),
        decreases gs.len() - i,
    {
        let g = &gs[i];
        assert(g@ == gsv[i as int]);
        if grapheme_all_alphanumeric(g.as_str()) {
            assert(sanitize_grapheme(g@) == g@);
            out.append(g.as_str());
        } else {
            proof {
                reveal_strlit("_");
                assert(sanitize_grapheme(g@) =~= "_"@);
            }
            out.append("_");
        }
        proof {
            gsv.lemma_flat_map_take_append(f, i as int);
        }
        i = i + 1;
    }
    proof {
        assert(gsv.take(gsv.len() as int) =~= gsv);
    }
    out
}

/// Makes an attribute key into a valid backend label key: sanitizes it and
/// prefixes `key_` when the sanitized key starts with an ASCII digit.  The
/// empty key passes through unchanged.
pub fn normalize_label_key(s: &str) -> (r: String)
    ensures
        r@ == spec_normalize(s@),
{
    if s.unicode_len() == 0 {
        return s.to_owned();
    }
    let t = sanitize_string(s);
    let digit_led = t.as_str().unicode_len() > 0 && {
        let c = t.as_str().get_char(0);
        '0' <= c && c <= '9'
    };
    if digit_led {
        let mut r = String::from_str("key_");
        r.append(t.as_str());
        r
    } else {
        t
    }
}

} // verus!
