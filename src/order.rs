use vstd::prelude::*;

verus! {

/// Strict lexicographic order on character sequences, by code point; a proper
/// prefix comes before every extension of it.
pub open spec fn chars_lt(a: Seq<char>, b: Seq<char>) -> bool
    decreases a.len(),
{
    if b.len() == 0 {
        false
    } else if a.len() == 0 {
        true
    } else if a[0] != b[0] {
        (a[0] as int) < (b[0] as int)
    } else {
        chars_lt(a.drop_first(), b.drop_first())
    }
}

/// What `str::to_lowercase` makes of a name.
pub uninterp spec fn lower_of(s: Seq<char>) -> Seq<char>;

/// The listing order on names given with their lowercase forms: by the
/// lowercase forms; names that differ only in case follow their own order.
pub open spec fn folded_lt(a: Seq<char>, a_lower: Seq<char>, b: Seq<char>, b_lower: Seq<char>) -> bool {
    chars_lt(a_lower, b_lower) || (a_lower == b_lower && chars_lt(a, b))
}

/// The order of names within one group of a listing: case-insensitive.
pub open spec fn name_lt(a: Seq<char>, b: Seq<char>) -> bool {
    folded_lt(a, lower_of(a), b, lower_of(b))
}

pub proof fn lemma_chars_lt_irreflexive(a: Seq<char>)
    ensures
        !chars_lt(a, a),
    decreases a.len(),
{
    if a.len() > 0 {
        lemma_chars_lt_irreflexive(a.drop_first());
    }
}

pub proof fn lemma_chars_lt_transitive(a: Seq<char>, b: Seq<char>, c: Seq<char>)
    requires
        chars_lt(a, b),
        chars_lt(b, c),
    ensures
        chars_lt(a, c),
    decreases a.len(),
{
    if a.len() > 0 && a[0] == b[0] && b[0] == c[0] {
        lemma_chars_lt_transitive(a.drop_first(), b.drop_first(), c.drop_first());
    }
}

pub proof fn lemma_chars_lt_total(a: Seq<char>, b: Seq<char>)
    ensures
        a == b || chars_lt(a, b) || chars_lt(b, a),
    decreases a.len(),
{
    if a.len() > 0 && b.len() > 0 && a[0] == b[0] {
        lemma_chars_lt_total(a.drop_first(), b.drop_first());
        if a.drop_first() == b.drop_first() {
            assert(a =~= seq![a[0]] + a.drop_first());
            assert(b =~= seq![b[0]] + b.drop_first());
        }
    } else if a.len() > 0 && b.len() > 0 {
        assert((a[0] as int) != (b[0] as int));
    } else if a.len() == 0 && b.len() == 0 {
        assert(a =~= b);
    }
}

pub proof fn lemma_name_lt_irreflexive(a: Seq<char>)
    ensures
        !name_lt(a, a),
{
    lemma_chars_lt_irreflexive(a);
    lemma_chars_lt_irreflexive(lower_of(a));
}

pub proof fn lemma_name_lt_transitive(a: Seq<char>, b: Seq<char>, c: Seq<char>)
    requires
        name_lt(a, b),
        name_lt(b, c),
    ensures
        name_lt(a, c),
{
    if chars_lt(lower_of(a), lower_of(b)) && chars_lt(lower_of(b), lower_of(c)) {
        lemma_chars_lt_transitive(lower_of(a), lower_of(b), lower_of(c));
    }
    if lower_of(a) == lower_of(b) && lower_of(b) == lower_of(c) {
        lemma_chars_lt_irreflexive(lower_of(a));
        lemma_chars_lt_transitive(a, b, c);
    }
}

/// Two distinct names are always ordered one way or the other.
pub proof fn lemma_name_lt_total(a: Seq<char>, b: Seq<char>)
    ensures
        a == b || name_lt(a, b) || name_lt(b, a),
{
    lemma_chars_lt_total(lower_of(a), lower_of(b));
    lemma_chars_lt_total(a, b);
}

pub proof fn lemma_name_lt_asymmetric(a: Seq<char>, b: Seq<char>)
    requires
        name_lt(a, b),
    ensures
        !name_lt(b, a),
{
    if name_lt(b, a) {
        lemma_name_lt_transitive(a, b, a);
        lemma_name_lt_irreflexive(a);
    }
}

/// Decides `chars_lt` on two strings.
fn chars_precede(a: &str, b: &str) -> (r: bool)
    ensures
        r == chars_lt(a@, b@),
{
    let la = a.unicode_len();
    let lb = b.unicode_len();
    let mut i: usize = 0;
    assert(a@.skip(0) =~= a@);
    assert(b@.skip(0) =~= b@);
    while i < la && i < lb
        invariant
            i <= la,
            i <= lb,
            la == a@.len(),
            lb == b@.len(),
            chars_lt(a@, b@) == chars_lt(a@.skip(i as int), b@.skip(i as int)),
        decreases la - i,
    {
        let ca = a.get_char(i);
        let cb = b.get_char(i);
        if ca != cb {
            return (ca as u32) < (cb as u32);
        }
        assert(a@.skip(i as int).drop_first() =~= a@.skip(i + 1));
        assert(b@.skip(i as int).drop_first() =~= b@.skip(i + 1));
        i += 1;
    }
    i < lb
}

/// Relies on `str::to_lowercase`: the lowercase form of a name, which depends on
/// the name alone.
#[verifier::external_body]
fn lowercase(s: &str) -> (r: String)
    ensures
        r@ == lower_of(s@),
{
    s.to_lowercase()
}

/// Whether name `a`, whose lowercase form is `a_lower`, is listed before
/// name `b`, whose lowercase form is `b_lower`.
pub fn folded_precedes(a: &String, a_lower: &String, b: &String, b_lower: &String) -> (r: bool)
    ensures
        r == folded_lt(a@, a_lower@, b@, b_lower@),
{
    if chars_precede(a_lower.as_str(), b_lower.as_str()) {
        true
    } else if *a_lower == *b_lower {
        chars_precede(a.as_str(), b.as_str())
    } else {
        false
    }
}

/// Whether name `a` is listed before name `b`.
pub fn name_precedes(a: &String, b: &String) -> (r: bool)
    ensures
        r == name_lt(a@, b@),
{
    let a_lower = lowercase(a.as_str());
    let b_lower = lowercase(b.as_str());
    folded_precedes(a, &a_lower, b, &b_lower)
}

} // verus!
