//! A string that compares without regard to case and keeps its case.

use vstd::prelude::*;
use vstd::string::*;

verus! {

/// The lowercase mapping of one character, as Unicode defines it.
pub uninterp spec fn char_lowercase(c: char) -> Seq<char>;

/// Relies on `char::to_lowercase`: the characters of the lowercase mapping of `c`.
#[verifier::external_body]
fn lowercase_char(c: char) -> (r: Vec<char>)
    ensures
        r@ == char_lowercase(c),
{
    c.to_lowercase().collect()
}

/// The lowercase mapping of `c`; `c` itself should the mapping be empty, which
/// Unicode never makes it.
pub open spec fn lower_or_self(c: char) -> Seq<char> {
    if char_lowercase(c).len() == 0 {
        seq![c]
    } else {
        char_lowercase(c)
    }
}

/// The per-character lowercase mapping of every character of `s`, concatenated.
pub open spec fn folded(s: Seq<char>) -> Seq<char>
    decreases s.len(),
{
    if s.len() == 0 {
        Seq::empty()
    } else {
        folded(s.drop_last()) + lower_or_self(s.last())
    }
}

/// Folding distributes over concatenation.
pub proof fn lemma_folded_concat(a: Seq<char>, b: Seq<char>)
    ensures
        folded(a + b) == folded(a) + folded(b),
    decreases b.len(),
{
    if b.len() == 0 {
        assert(a + b =~= a);
        assert(folded(a) + folded(b) =~= folded(a));
    } else {
        assert((a + b).drop_last() =~= a + b.drop_last());
        assert((a + b).last() == b.last());
        lemma_folded_concat(a, b.drop_last());
        assert(folded(a + b) =~= folded(a) + folded(b));
    }
}

/// Folding never shortens a string.
pub proof fn lemma_folded_len(s: Seq<char>)
    ensures
        folded(s).len() >= s.len(),
    decreases s.len(),
{
    if s.len() > 0 {
        lemma_folded_len(s.drop_last());
    }
}

/// The case-folded characters of `s`.
pub fn fold_case(s: &str) -> (r: Vec<char>)
    ensures
        r@ == folded(s@),
{
    let n = s.unicode_len();
    let mut r: Vec<char> = Vec::new();
    let mut i: usize = 0;
    while i < n
        invariant
            n == s@.len(),
            i <= n,
            r@ == folded(s@.subrange(0, i as int)),
        decreases n - i,
    {
        let c = s.get_char(i);
        let mut lower = lowercase_char(c);
        if lower.len() == 0 {
            lower.push(c);
        }
        assert(lower@ == lower_or_self(c));
        let ghost before = r@;
        let mut j: usize = 0;
        while j < lower.len()
            invariant
                j <= lower@.len(),
                r@ == before + lower@.subrange(0, j as int),
            decreases lower@.len() - j,
        {
            r.push(lower[j]);
            j = j + 1;
            assert(r@ =~= before + lower@.subrange(0, j as int));
        }
        assert(s@.subrange(0, i + 1).drop_last() =~= s@.subrange(0, i as int));
        assert(lower@.subrange(0, j as int) =~= lower@);
        i = i + 1;
    }
    assert(s@.subrange(0, n as int) =~= s@);
    r
}

/// Whether two character vectors hold the same characters.
fn chars_equal(a: &Vec<char>, b: &Vec<char>) -> (r: bool)
    ensures
        r == (a@ == b@),
{
    if a.len() != b.len() {
        return false;
    }
    let mut i: usize = 0;
    while i < a.len()
        invariant
            a@.len() == b@.len(),
            i <= a@.len(),
            forall|k: int| 0 <= k < i ==> a@[k] == b@[k],
        decreases a@.len() - i,
    {
        if a[i] != b[i] {
            return false;
        }
        i = i + 1;
    }
    assert(a@ =~= b@);
    true
}

/// A case-insensitive, case-preserving string.
#[derive(Debug, Clone)]
pub struct CiString(pub String);

impl CiString {
    /// What the string is compared by: its case-folded characters.
    pub open spec fn key(&self) -> Seq<char> {
        folded(self.0@)
    }

    /// A key holding a copy of `s`.
    pub fn new(s: &str) -> (r: CiString)
        ensures
            r.0@ == s@,
    {
        CiString(String::from_str(s))
    }

    /// The string as stored, case preserved.
    pub fn to_string(&self) -> (r: String)
        ensures
            r@ == self.0@,
    {
        String::from_str(self.0.as_str())
    }
}

/// Whether `a` and `b` are equal up to case.
pub fn ci_eq(a: &CiString, b: &CiString) -> (r: bool)
    ensures
        r == (a.key() == b.key()),
{
    chars_equal(&fold_case(a.0.as_str()), &fold_case(b.0.as_str()))
}

impl PartialEq for CiString {
    fn eq(&self, other: &CiString) -> (r: bool) {
        ci_eq(self, other)
    }
}

impl vstd::std_specs::cmp::PartialEqSpecImpl for CiString {
    open spec fn obeys_eq_spec() -> bool {
        true
    }

    open spec fn eq_spec(&self, other: &CiString) -> bool {
        self.key() == other.key()
    }
}

impl Eq for CiString {
}

} // verus!
