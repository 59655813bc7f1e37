use vstd::prelude::*;

verus! {

/// Lexicographic order on character sequences, comparing code points.
pub open spec fn lex_le(a: Seq<char>, b: Seq<char>) -> bool
    decreases a.len(),
{
    if a.len() == 0 {
        true
    } else if b.len() == 0 {
        false
    } else if (a[0] as int) < (b[0] as int) {
        true
    } else if (a[0] as int) > (b[0] as int) {
        false
    } else {
        lex_le(a.drop_first(), b.drop_first())
    }
}

/// Any two character sequences are comparable.
pub proof fn lemma_lex_le_total(a: Seq<char>, b: Seq<char>)
    ensures
        lex_le(a, b) || lex_le(b, a),
    decreases a.len(),
{
    if a.len() > 0 && b.len() > 0 && (a[0] as int) == (b[0] as int) {
        lemma_lex_le_total(a.drop_first(), b.drop_first());
    }
}

/// Lexicographic order is transitive.
pub proof fn lemma_lex_le_trans(a: Seq<char>, b: Seq<char>, c: Seq<char>)
    requires
        lex_le(a, b),
        lex_le(b, c),
    ensures
        lex_le(a, c),
    decreases a.len(),
{
    if a.len() > 0 && b.len() > 0 && c.len() > 0 && (a[0] as int) == (b[0] as int) && (b[0] as int)
        == (c[0] as int) {
        lemma_lex_le_trans(a.drop_first(), b.drop_first(), c.drop_first());
    }
}

/// Two sequences each at or before the other are equal.
pub proof fn lemma_lex_le_antisym(a: Seq<char>, b: Seq<char>)
    requires
        lex_le(a, b),
        lex_le(b, a),
    ensures
        a == b,
    decreases a.len(),
{
    if a.len() == 0 {
        assert(b.len() == 0);
        assert(a =~= b);
    } else {
        assert(b.len() > 0);
        assert((a[0] as int) == (b[0] as int));
        assert(a[0] == b[0]);
        lemma_lex_le_antisym(a.drop_first(), b.drop_first());
        assert(a =~= b) by {
            assert(a.len() == b.len());
            assert(forall|i: int|
                1 <= i < a.len() ==> #[trigger] a[i] == a.drop_first()[i - 1] && b[i]
                    == b.drop_first()[i - 1]);
        }
    }
}

/// Whether `a` sorts at or before `b`, comparing code points.
pub fn str_le(a: &str, b: &str) -> (r: bool)
    ensures
        r == lex_le(a@, b@),
    decreases a@.len(),
{
    let alen = a.unicode_len();
    let blen = b.unicode_len();
    if alen == 0 {
        true
    } else if blen == 0 {
        false
    } else {
        let ca = a.get_char(0) as u32;
        let cb = b.get_char(0) as u32;
        if ca < cb {
            true
        } else if ca > cb {
            false
        } else {
            let r = str_le(a.substring_char(1, alen), b.substring_char(1, blen));
            proof {
                assert(a@.subrange(1, alen as int) =~= a@.drop_first());
                assert(b@.subrange(1, blen as int) =~= b@.drop_first());
            }
            r
        }
    }
}

/// The key a trashed timestamp sorts by; `None` sorts after every
/// timestamp in descending order.
pub open spec fn trashed_key(t: Option<i64>) -> int {
    match t {
        Option::Some(v) => v as int,
        Option::None => i64::MIN - 1,
    }
}

/// Whether `a` sorts at or before `b` under descending trashed order.
pub fn trashed_desc_le(a: &Option<i64>, b: &Option<i64>) -> (r: bool)
    ensures
        r == (trashed_key(*a) >= trashed_key(*b)),
{
    match (a, b) {
        (Some(x), Some(y)) => *x >= *y,
        (Some(_), None) => true,
        (None, None) => true,
        (None, Some(_)) => false,
    }
}

} // verus!
