//! Composite keys: a `prefix` namespace plus a typed key value. The total
//! order on composite keys is lexicographic on (prefix, key) and governs the
//! iteration order of every storage variant.

use vstd::prelude::*;

verus! {

/// The typed key of a composite key.
#[derive(Debug)]
pub enum KeyWrapper {
    Str(String),
    Uint(u32),
    Bool(bool),
}

/// Spec-level image of a `KeyWrapper`.
pub ghost enum KeySpec {
    Str(Seq<char>),
    Uint(u32),
    Bool(bool),
}

impl View for KeyWrapper {
    type V = KeySpec;

    open spec fn view(&self) -> KeySpec {
        match self {
            KeyWrapper::Str(s) => KeySpec::Str(s@),
            KeyWrapper::Uint(u) => KeySpec::Uint(*u),
            KeyWrapper::Bool(b) => KeySpec::Bool(*b),
        }
    }
}

impl Clone for KeyWrapper {
    fn clone(&self) -> (r: Self)
        ensures
            r@ == self@,
    {
        match self {
            KeyWrapper::Str(s) => KeyWrapper::Str(s.clone()),
            KeyWrapper::Uint(u) => KeyWrapper::Uint(*u),
            KeyWrapper::Bool(b) => KeyWrapper::Bool(*b),
        }
    }
}

/// A namespaced key: `(prefix, key)` with lexicographic total order.
#[derive(Debug)]
pub struct CompositeKey {
    pub prefix: String,
    pub key: KeyWrapper,
}

/// Spec-level image of a `CompositeKey`.
pub ghost struct CompositeKeySpec {
    pub prefix: Seq<char>,
    pub key: KeySpec,
}

impl View for CompositeKey {
    type V = CompositeKeySpec;

    open spec fn view(&self) -> CompositeKeySpec {
        CompositeKeySpec { prefix: self.prefix@, key: self.key@ }
    }
}

impl Clone for CompositeKey {
    fn clone(&self) -> (r: Self)
        ensures
            r@ == self@,
    {
        CompositeKey { prefix: self.prefix.clone(), key: self.key.clone() }
    }
}

impl CompositeKey {
    pub fn new(prefix: &str, key: KeyWrapper) -> (r: Self)
        ensures
            r@ == (CompositeKeySpec { prefix: prefix@, key: key@ }),
    {
        CompositeKey { prefix: prefix.to_owned(), key }
    }
}

/// Strict lexicographic order on character sequences, by code point.
pub open spec fn chars_lt(a: Seq<char>, b: Seq<char>) -> bool
    decreases a.len(),
{
    if b.len() == 0 {
        false
    } else if a.len() == 0 {
        true
    } else if (a[0] as u32) < (b[0] as u32) {
        true
    } else if a[0] == b[0] {
        chars_lt(a.skip(1), b.skip(1))
    } else {
        false
    }
}

/// Rank of a key variant: keys of different variants order by variant.
pub open spec fn key_rank(k: KeySpec) -> int {
    match k {
        KeySpec::Str(_) => 0,
        KeySpec::Uint(_) => 1,
        KeySpec::Bool(_) => 2,
    }
}

/// Strict order on typed keys: by variant rank, then within the variant.
pub open spec fn key_lt(a: KeySpec, b: KeySpec) -> bool {
    match (a, b) {
        (KeySpec::Str(x), KeySpec::Str(y)) => chars_lt(x, y),
        (KeySpec::Uint(x), KeySpec::Uint(y)) => x < y,
        (KeySpec::Bool(x), KeySpec::Bool(y)) => !x && y,
        _ => key_rank(a) < key_rank(b),
    }
}

/// The strict total order on composite keys: lexicographic on (prefix, key).
pub open spec fn ck_lt(a: CompositeKeySpec, b: CompositeKeySpec) -> bool {
    chars_lt(a.prefix, b.prefix) || (a.prefix == b.prefix && key_lt(a.key, b.key))
}

/// `chars_lt` is irreflexive and asymmetric.
pub proof fn lemma_chars_lt_asymmetric(a: Seq<char>, b: Seq<char>)
    ensures
        chars_lt(a, b) ==> !chars_lt(b, a),
        !chars_lt(a, a),
    decreases a.len(),
{
    if a.len() > 0 && b.len() > 0 && a[0] == b[0] {
        lemma_chars_lt_asymmetric(a.skip(1), b.skip(1));
    }
    if a.len() > 0 {
        lemma_chars_lt_asymmetric(a.skip(1), a.skip(1));
    }
}

/// Two character sequences that each fail to precede the other are equal.
pub proof fn lemma_chars_lt_connected(a: Seq<char>, b: Seq<char>)
    ensures
        !chars_lt(a, b) && !chars_lt(b, a) ==> a == b,
    decreases a.len(),
{
    if !chars_lt(a, b) && !chars_lt(b, a) {
        if a.len() == 0 {
            assert(b.len() == 0);
            assert(a =~= b);
        } else {
            assert(b.len() > 0);
            vstd::utf8::char_u32_cast(a[0], a[0] as u32);
            vstd::utf8::char_u32_cast(b[0], b[0] as u32);
            assert(a[0] == b[0]);
            lemma_chars_lt_connected(a.skip(1), b.skip(1));
            assert(a =~= seq![a[0]] + a.skip(1));
            assert(b =~= seq![b[0]] + b.skip(1));
        }
    }
}

/// `chars_lt` is transitive.
pub proof fn lemma_chars_lt_transitive(a: Seq<char>, b: Seq<char>, c: Seq<char>)
    ensures
        chars_lt(a, b) && chars_lt(b, c) ==> chars_lt(a, c),
    decreases a.len(), b.len(), c.len(),
{
    if chars_lt(a, b) && chars_lt(b, c) {
        if a.len() > 0 && b.len() > 0 && c.len() > 0 {
            if a[0] == b[0] && b[0] == c[0] {
                lemma_chars_lt_transitive(a.skip(1), b.skip(1), c.skip(1));
            }
        }
    }
}

/// `ck_lt` is irreflexive and asymmetric.
pub proof fn lemma_ck_lt_asymmetric(a: CompositeKeySpec, b: CompositeKeySpec)
    ensures
        ck_lt(a, b) ==> !ck_lt(b, a),
        !ck_lt(a, a),
{
    lemma_chars_lt_asymmetric(a.prefix, b.prefix);
    lemma_chars_lt_asymmetric(a.prefix, a.prefix);
    match (a.key, b.key) {
        (KeySpec::Str(x), KeySpec::Str(y)) => {
            lemma_chars_lt_asymmetric(x, y);
        },
        _ => {},
    }
    match a.key {
        KeySpec::Str(x) => {
            lemma_chars_lt_asymmetric(x, x);
        },
        _ => {},
    }
}

/// Two composite keys that each fail to precede the other are equal.
pub proof fn lemma_ck_lt_connected(a: CompositeKeySpec, b: CompositeKeySpec)
    ensures
        !ck_lt(a, b) && !ck_lt(b, a) ==> a == b,
{
    if !ck_lt(a, b) && !ck_lt(b, a) {
        lemma_chars_lt_connected(a.prefix, b.prefix);
        match (a.key, b.key) {
            (KeySpec::Str(x), KeySpec::Str(y)) => {
                lemma_chars_lt_connected(x, y);
            },
            _ => {},
        }
    }
}

/// `ck_lt` is transitive.
pub proof fn lemma_ck_lt_transitive(a: CompositeKeySpec, b: CompositeKeySpec, c: CompositeKeySpec)
    ensures
        ck_lt(a, b) && ck_lt(b, c) ==> ck_lt(a, c),
{
    lemma_chars_lt_transitive(a.prefix, b.prefix, c.prefix);
    if a.prefix == b.prefix && b.prefix == c.prefix {
        match (a.key, b.key, c.key) {
            (KeySpec::Str(x), KeySpec::Str(y), KeySpec::Str(z)) => {
                lemma_chars_lt_transitive(x, y, z);
            },
            _ => {},
        }
    }
}

/// Compares two strings in lexicographic code-point order.
pub fn str_lt(a: &str, b: &str) -> (r: bool)
    ensures
        r == chars_lt(a@, b@),
{
    let alen = a.unicode_len();
    let blen = b.unicode_len();
    let mut i: usize = 0;
    proof {
        assert(a@.skip(0) =~= a@);
        assert(b@.skip(0) =~= b@);
    }
    loop
        invariant
            i <= alen,
            i <= blen,
            alen == a@.len(),
            blen == b@.len(),
            chars_lt(a@, b@) == chars_lt(a@.skip(i as int), b@.skip(i as int)),
        decreases alen - i,
    {
        if i == blen {
            return false;
        }
        if i == alen {
            return true;
        }
        let ca = a.get_char(i);
        let cb = b.get_char(i);
        if (ca as u32) < (cb as u32) {
            return true;
        }
        if ca != cb {
            return false;
        }
        proof {
            assert(a@.skip(i as int).skip(1) =~= a@.skip(i + 1));
            assert(b@.skip(i as int).skip(1) =~= b@.skip(i + 1));
        }
        i = i + 1;
    }
}

/// Decides equality of two strings as character sequences.
pub fn str_eq(a: &str, b: &str) -> (r: bool)
    ensures
        r == (a@ == b@),
{
    let r = !str_lt(a, b) && !str_lt(b, a);
    proof {
        lemma_chars_lt_connected(a@, b@);
        lemma_chars_lt_asymmetric(a@, b@);
    }
    r
}

/// Decides the strict order on typed keys.
pub fn key_wrapper_lt(a: &KeyWrapper, b: &KeyWrapper) -> (r: bool)
    ensures
        r == key_lt(a@, b@),
{
    match (a, b) {
        (KeyWrapper::Str(x), KeyWrapper::Str(y)) => str_lt(x.as_str(), y.as_str()),
        (KeyWrapper::Uint(x), KeyWrapper::Uint(y)) => *x < *y,
        (KeyWrapper::Bool(x), KeyWrapper::Bool(y)) => !*x && *y,
        (KeyWrapper::Str(_), _) => true,
        (KeyWrapper::Uint(_), KeyWrapper::Bool(_)) => true,
        _ => false,
    }
}

/// Decides equality of typed keys.
pub fn key_wrapper_eq(a: &KeyWrapper, b: &KeyWrapper) -> (r: bool)
    ensures
        r == (a@ == b@),
{
    match (a, b) {
        (KeyWrapper::Str(x), KeyWrapper::Str(y)) => str_eq(x.as_str(), y.as_str()),
        (KeyWrapper::Uint(x), KeyWrapper::Uint(y)) => *x == *y,
        (KeyWrapper::Bool(x), KeyWrapper::Bool(y)) => *x == *y,
        _ => false,
    }
}

/// Decides the strict total order on composite keys.
pub fn composite_lt(a: &CompositeKey, b: &CompositeKey) -> (r: bool)
    ensures
        r == ck_lt(a@, b@),
{
    if str_lt(a.prefix.as_str(), b.prefix.as_str()) {
        true
    } else if a.prefix == b.prefix {
        key_wrapper_lt(&a.key, &b.key)
    } else {
        false
    }
}

/// Decides equality of composite keys.
pub fn composite_eq(a: &CompositeKey, b: &CompositeKey) -> (r: bool)
    ensures
        r == (a@ == b@),
{
    a.prefix == b.prefix && key_wrapper_eq(&a.key, &b.key)
}

} // verus!
