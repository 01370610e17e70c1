use vstd::prelude::*;

verus! {

/// `a` and `b` agree on their first `k` characters.
pub open spec fn agree_upto(a: Seq<char>, b: Seq<char>, k: int) -> bool {
    forall|j: int| 0 <= j < k ==> #[trigger] a[j] == b[j]
}

/// `a` comes before `b` when they first differ at `k`.
pub open spec fn lt_at(a: Seq<char>, b: Seq<char>, k: int) -> bool {
    &&& 0 <= k <= a.len()
    &&& k <= b.len()
    &&& agree_upto(a, b, k)
    &&& ((k == a.len() && k < b.len()) || (k < a.len() && k < b.len() && (a[k] as u32) < (b[k] as u32)))
}

/// Lexicographic order of strings by code point, the order of `str`'s `<`
/// (UTF-8 bytes compare in code point order).
pub open spec fn str_lt_spec(a: Seq<char>, b: Seq<char>) -> bool {
    exists|k: int| lt_at(a, b, k)
}

pub proof fn lemma_str_lt_irreflexive(a: Seq<char>)
    ensures
        !str_lt_spec(a, a),
{
}

pub proof fn lemma_str_lt_transitive(a: Seq<char>, b: Seq<char>, c: Seq<char>)
    requires
        str_lt_spec(a, b),
        str_lt_spec(b, c),
    ensures
        str_lt_spec(a, c),
{
    let k1 = choose|k: int| lt_at(a, b, k);
    let k2 = choose|k: int| lt_at(b, c, k);
    if k1 < k2 {
        assert(b[k1] == c[k1]);
        assert forall|j: int| 0 <= j < k1 implies #[trigger] a[j] == c[j] by {
            assert(a[j] == b[j]);
            assert(b[j] == c[j]);
        }
        assert(lt_at(a, c, k1));
    } else if k1 == k2 {
        assert forall|j: int| 0 <= j < k1 implies #[trigger] a[j] == c[j] by {
            assert(a[j] == b[j]);
            assert(b[j] == c[j]);
        }
        assert(lt_at(a, c, k1));
    } else {
        assert(a[k2] == b[k2]);
        assert forall|j: int| 0 <= j < k2 implies #[trigger] a[j] == c[j] by {
            assert(a[j] == b[j]);
            assert(b[j] == c[j]);
        }
        assert(lt_at(a, c, k2));
    }
}

/// Whether `a` comes strictly before `b` in string order.
pub fn str_lt(a: &str, b: &str) -> (r: bool)
    ensures
        r == str_lt_spec(a@, b@),
{
    let na = a.unicode_len();
    let nb = b.unicode_len();
    let mut i: usize = 0;
    while i < na && i < nb
        invariant
            na == a@.len(),
            nb == b@.len(),
            i <= na,
            i <= nb,
            agree_upto(a@, b@, i as int),
        decreases na - i,
    {
        let ca = a.get_char(i);
        let cb = b.get_char(i);
        if ca != cb {
            let less = (ca as u32) < (cb as u32);
            proof {
                if less {
                    assert(lt_at(a@, b@, i as int));
                } else {
                    assert forall|k: int| !lt_at(a@, b@, k) by {
                        if lt_at(a@, b@, k) && k > i {
                            assert(a@[i as int] == b@[i as int]);
                        }
                    }
                }
            }
            return less;
        }
        i += 1;
    }
    let r = i < nb;
    proof {
        if r {
            assert(i == na);
            assert(lt_at(a@, b@, i as int));
        } else {
            assert forall|k: int| !lt_at(a@, b@, k) by {
                if lt_at(a@, b@, k) && k > i {
                    assert(false);
                }
            }
        }
    }
    r
}

} // verus!
