//! The order of names: byte by byte over their UTF-8 form, a shorter name
//! before any longer name that begins with it. And the orders that break a
//! tie between entries of one name: of numbers, and of values that may be
//! absent, where the absent one comes first.

use crate::text::text_of;
use vstd::prelude::*;
use vstd::slice::*;
use vstd::string::*;
use vstd::utf8::*;

verus! {

/// How one value stands to another in an order.
#[derive(Clone, Copy, Debug, PartialEq, Eq, Structural)]
pub enum Rank {
    /// It sorts earlier.
    Before,
    /// The two are the same.
    Same,
    /// It sorts later.
    After,
}

/// `a` and `b` hold the same bytes in their first `k` places.
pub open spec fn agree(a: Seq<u8>, b: Seq<u8>, k: int) -> bool {
    &&& 0 <= k <= a.len()
    &&& k <= b.len()
    &&& forall|j: int| 0 <= j < k ==> a[j] == b[j]
}

/// At place `k` the two part ways and `a` is the smaller: it ends there
/// while `b` goes on, or it holds the smaller byte.
pub open spec fn splits_below(a: Seq<u8>, b: Seq<u8>, k: int) -> bool {
    agree(a, b, k) && k < b.len() && (k == a.len() || a[k] < b[k])
}

/// `a` comes strictly before `b` in lexicographic byte order.
pub open spec fn bytes_lt(a: Seq<u8>, b: Seq<u8>) -> bool {
    exists|k: int| #[trigger] splits_below(a, b, k)
}

/// The key a name is ordered by.
pub open spec fn key(name: Seq<char>) -> Seq<u8> {
    encode_utf8(name)
}

/// `a` comes strictly before `b` among names.
pub open spec fn name_lt(a: Seq<char>, b: Seq<char>) -> bool {
    bytes_lt(key(a), key(b))
}

/// What `rank` answers for two names.
pub open spec fn rank_of(a: Seq<char>, b: Seq<char>) -> Rank {
    if name_lt(a, b) {
        Rank::Before
    } else if a == b {
        Rank::Same
    } else {
        Rank::After
    }
}

/// No byte string comes before itself.
pub proof fn lemma_bytes_lt_irreflexive(a: Seq<u8>)
    ensures
        !bytes_lt(a, a),
{
}

/// Of two byte strings at most one comes before the other.
pub proof fn lemma_bytes_lt_asymmetric(a: Seq<u8>, b: Seq<u8>)
    requires
        bytes_lt(a, b),
    ensures
        !bytes_lt(b, a),
{
    let k = choose|k: int| splits_below(a, b, k);
    if bytes_lt(b, a) {
        let m = choose|m: int| splits_below(b, a, m);
        if k < m {
            assert(b[k] == a[k]);
        } else if m < k {
            assert(a[m] == b[m]);
        }
    }
}

/// Before is transitive.
pub proof fn lemma_bytes_lt_transitive(a: Seq<u8>, b: Seq<u8>, c: Seq<u8>)
    requires
        bytes_lt(a, b),
        bytes_lt(b, c),
    ensures
        bytes_lt(a, c),
{
    let k = choose|k: int| splits_below(a, b, k);
    let m = choose|m: int| splits_below(b, c, m);
    let n = if k <= m {
        k
    } else {
        m
    };
    assert forall|j: int| 0 <= j < n implies a[j] == c[j] by {
        assert(a[j] == b[j]);
        assert(b[j] == c[j]);
    }
    if k < m {
        assert(b[k] == c[k]);
    } else if m < k {
        assert(a[m] == b[m]);
    }
    assert(splits_below(a, c, n));
}

/// Two different byte strings are ordered one way or the other.
pub proof fn lemma_bytes_lt_total(a: Seq<u8>, b: Seq<u8>)
    ensures
        bytes_lt(a, b) || a == b || bytes_lt(b, a),
{
    if a != b {
        lemma_first_split(a, b, 0);
    }
}

/// Two byte strings that agree up to `k` and are not equal part ways at or
/// after `k`.
proof fn lemma_first_split(a: Seq<u8>, b: Seq<u8>, k: int)
    requires
        agree(a, b, k),
        a != b,
    ensures
        bytes_lt(a, b) || bytes_lt(b, a),
    decreases a.len() - k,
{
    if k == a.len() {
        if k == b.len() {
            assert(a =~= b);
        } else {
            assert(splits_below(a, b, k));
        }
    } else if k == b.len() {
        assert(agree(b, a, k));
        assert(splits_below(b, a, k));
    } else if a[k] < b[k] {
        assert(splits_below(a, b, k));
    } else if b[k] < a[k] {
        assert(agree(b, a, k));
        assert(splits_below(b, a, k));
    } else {
        lemma_first_split(a, b, k + 1);
    }
}

/// Names with the same key are the same name.
pub proof fn lemma_key_injective(a: Seq<char>, b: Seq<char>)
    requires
        key(a) == key(b),
    ensures
        a == b,
{
    encode_utf8_decode_utf8(a);
    encode_utf8_decode_utf8(b);
}

/// Among names, before is a strict total order: exactly one of before, same
/// and after holds of any two, and before carries over a middle name.
pub proof fn lemma_name_order(a: Seq<char>, b: Seq<char>, c: Seq<char>)
    ensures
        !name_lt(a, a),
        name_lt(a, b) ==> !name_lt(b, a),
        name_lt(a, b) && name_lt(b, c) ==> name_lt(a, c),
        name_lt(a, b) || a == b || name_lt(b, a),
{
    lemma_bytes_lt_irreflexive(key(a));
    if name_lt(a, b) {
        lemma_bytes_lt_asymmetric(key(a), key(b));
        if name_lt(b, c) {
            lemma_bytes_lt_transitive(key(a), key(b), key(c));
        }
    }
    lemma_bytes_lt_total(key(a), key(b));
    if key(a) == key(b) {
        lemma_key_injective(a, b);
    }
}

/// Orders two names.
pub fn rank(a: &str, b: &str) -> (r: Rank)
    ensures
        r == rank_of(a@, b@),
        r == Rank::Same <==> a@ == b@,
        r == Rank::After <==> name_lt(b@, a@),
{
    let x = a.as_bytes();
    let y = b.as_bytes();
    let mut i: usize = 0;
    while i < x.len() && i < y.len() && x[i] == y[i]
        invariant
            x@ == key(a@),
            y@ == key(b@),
            agree(x@, y@, i as int),
        decreases x@.len() - i,
    {
        i = i + 1;
    }
    proof {
        lemma_name_order(b@, a@, b@);
    }
    if i == x.len() {
        if i == y.len() {
            Rank::Same
        } else {
            Rank::Before
        }
    } else if i == y.len() {
        Rank::After
    } else if x[i] < y[i] {
        Rank::Before
    } else {
        Rank::After
    }
}

/// How the second stands to the first, given how the first stands to the
/// second.
pub open spec fn flip(r: Rank) -> Rank {
    match r {
        Rank::Before => Rank::After,
        Rank::Same => Rank::Same,
        Rank::After => Rank::Before,
    }
}

/// One order after another: the first decides, and the second where the
/// first finds the two the same.
pub open spec fn tie_break(first: Rank, second: Rank) -> Rank {
    if first == Rank::Same {
        second
    } else {
        first
    }
}

/// The order of numbers.
pub open spec fn number_rank(a: int, b: int) -> Rank {
    if a < b {
        Rank::Before
    } else if a == b {
        Rank::Same
    } else {
        Rank::After
    }
}

/// The order of numbers that may be absent: an absent one before any that
/// is there.
pub open spec fn opt_number_rank(a: Option<int>, b: Option<int>) -> Rank {
    match (a, b) {
        (None, None) => Rank::Same,
        (None, Some(_)) => Rank::Before,
        (Some(_), None) => Rank::After,
        (Some(x), Some(y)) => number_rank(x, y),
    }
}

/// The order of texts that may be absent: an absent one before any that is
/// there, and texts as names are ordered.
pub open spec fn opt_text_rank(a: Option<Seq<char>>, b: Option<Seq<char>>) -> Rank {
    match (a, b) {
        (None, None) => Rank::Same,
        (None, Some(_)) => Rank::Before,
        (Some(_), None) => Rank::After,
        (Some(x), Some(y)) => rank_of(x, y),
    }
}

/// A number that may be absent, as a whole number.
pub open spec fn whole(n: Option<u64>) -> Option<int> {
    match n {
        Some(n) => Some(n as int),
        None => None,
    }
}

/// A count that may be absent, as a whole number.
pub open spec fn whole_count(n: Option<usize>) -> Option<int> {
    match n {
        Some(n) => Some(n as int),
        None => None,
    }
}

/// The order of names is a strict total order, told as a rank: two names
/// are the same only when they are equal, the rank the other way round is
/// the flipped one, and before carries over a middle name.
pub proof fn lemma_rank_of(a: Seq<char>, b: Seq<char>, c: Seq<char>)
    ensures
        rank_of(a, b) == Rank::Same <==> a == b,
        rank_of(b, a) == flip(rank_of(a, b)),
        rank_of(a, b) == Rank::Before && rank_of(b, c) == Rank::Before ==> rank_of(a, c)
            == Rank::Before,
{
    lemma_name_order(a, b, c);
    lemma_name_order(b, a, b);
}

/// The order of texts that may be absent is a strict total order.
pub proof fn lemma_opt_text_rank(
    a: Option<Seq<char>>,
    b: Option<Seq<char>>,
    c: Option<Seq<char>>,
)
    ensures
        opt_text_rank(a, b) == Rank::Same <==> a == b,
        opt_text_rank(b, a) == flip(opt_text_rank(a, b)),
        opt_text_rank(a, b) == Rank::Before && opt_text_rank(b, c) == Rank::Before
            ==> opt_text_rank(a, c) == Rank::Before,
{
    if a is Some && b is Some {
        if c is Some {
            lemma_rank_of(a->0, b->0, c->0);
        } else {
            lemma_rank_of(a->0, b->0, a->0);
        }
    }
}

/// Orders two numbers.
pub fn rank_numbers(a: u64, b: u64) -> (r: Rank)
    ensures
        r == number_rank(a as int, b as int),
{
    if a < b {
        Rank::Before
    } else if a == b {
        Rank::Same
    } else {
        Rank::After
    }
}

/// Orders two numbers that may be absent.
pub fn rank_opt_numbers(a: Option<u64>, b: Option<u64>) -> (r: Rank)
    ensures
        r == opt_number_rank(whole(a), whole(b)),
{
    match (a, b) {
        (None, None) => Rank::Same,
        (None, Some(_)) => Rank::Before,
        (Some(_), None) => Rank::After,
        (Some(x), Some(y)) => rank_numbers(x, y),
    }
}

/// Orders two counts that may be absent.
pub fn rank_opt_counts(a: Option<usize>, b: Option<usize>) -> (r: Rank)
    ensures
        r == opt_number_rank(whole_count(a), whole_count(b)),
{
    match (a, b) {
        (None, None) => Rank::Same,
        (None, Some(_)) => Rank::Before,
        (Some(_), None) => Rank::After,
        (Some(x), Some(y)) => if x < y {
            Rank::Before
        } else if x == y {
            Rank::Same
        } else {
            Rank::After
        },
    }
}

/// Orders two texts that may be absent.
pub fn rank_opt_texts(a: &Option<String>, b: &Option<String>) -> (r: Rank)
    ensures
        r == opt_text_rank(text_of(*a), text_of(*b)),
{
    match (a, b) {
        (None, None) => Rank::Same,
        (None, Some(_)) => Rank::Before,
        (Some(_), None) => Rank::After,
        (Some(x), Some(y)) => rank(x.as_str(), y.as_str()),
    }
}

} // verus!
