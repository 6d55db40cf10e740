//! Settling how each parameter of a signature is passed.
//!
//! Each parameter starts with the kind its attributes give. Four passes then
//! settle the kinds:
//! 1. each array whose length is another parameter marks that parameter as
//!    its length (or, when the length parameter is an output, the array itself,
//!    or a pointer, is treated as `Other`), and fixed arrays that are freed by a
//!    named function are treated as `Other`;
//! 2. a length parameter shared by several arrays is not used: it and the
//!    arrays become `Other`;
//! 3. a byte-length array whose parameter does not address bytes, and its
//!    length, become `Other`;
//! 4. every parameter that is still `Other` is classified by its type.
//!
//! The first pass indexes parameters by the positions the attributes give; a
//! position past the last parameter makes the whole resolution fail.

use vstd::prelude::*;
use crate::kinds::SignatureParamKind;

verus! {

/// What the passes read of a parameter.
#[derive(Copy, Clone)]
pub struct ParamFacts {
    /// The parameter's `Out` flag.
    pub is_out: bool,
    /// The parameter's `Optional` flag.
    pub is_optional: bool,
    /// It carries `FreeWithAttribute`.
    pub free_with: bool,
    /// It carries `ReservedAttribute`.
    pub reserved: bool,
    /// Its type is a pointer.
    pub is_pointer: bool,
    /// Its type addresses bytes.
    pub byte_size: bool,
    /// Its type is a Windows Runtime array.
    pub winrt_array: bool,
    /// Its type is passed by reference.
    pub borrowed: bool,
    /// Its type is a non-exclusive Windows Runtime interface.
    pub non_exclusive: bool,
    /// Its type converts trivially.
    pub trivially_convertible: bool,
    /// Its type is primitive.
    pub primitive: bool,
    /// Its type is a pointer to a blittable type.
    pub deref_blittable: bool,
    /// Its type is blittable.
    pub blittable: bool,
}

/// One step of the first pass, at position `p`; `None` where a length
/// position lies past the last parameter.
pub open spec fn link_step(
    facts: Seq<ParamFacts>,
    ks: Seq<SignatureParamKind>,
    p: int,
) -> Option<Seq<SignatureParamKind>> {
    match ks[p].len_param() {
        Some(r) => if r >= ks.len() {
            None
        } else if !facts[r as int].is_out && p != r && !facts[r as int].is_pointer {
            Some(ks.update(r as int, SignatureParamKind::ArrayRelativePtr(p as usize)))
        } else {
            Some(ks.update(p, SignatureParamKind::Other))
        },
        None => if ks[p] is ArrayFixed && facts[p].free_with {
            Some(ks.update(p, SignatureParamKind::Other))
        } else {
            Some(ks)
        },
    }
}

/// The first pass over positions `0..k`.
pub open spec fn link_pass(
    facts: Seq<ParamFacts>,
    ks: Seq<SignatureParamKind>,
    k: nat,
) -> Option<Seq<SignatureParamKind>>
    decreases k,
{
    if k == 0 {
        Some(ks)
    } else {
        match link_pass(facts, ks, (k - 1) as nat) {
            Some(prev) => link_step(facts, prev, k - 1),
            None => None,
        }
    }
}

/// How many parameters name `r` as their length.
pub open spec fn count_refs(ks: Seq<SignatureParamKind>, r: usize) -> nat
    decreases ks.len(),
{
    if ks.len() == 0 {
        0
    } else {
        count_refs(ks.drop_last(), r) + if ks.last().len_param() == Some(r) {
            1nat
        } else {
            0nat
        }
    }
}

/// A parameter that the second pass clears: an array whose length parameter
/// other arrays share, or such a shared length parameter.
pub open spec fn shared(ks: Seq<SignatureParamKind>, p: int) -> bool {
    ||| (match ks[p].len_param() {
        Some(r) => count_refs(ks, r) > 1,
        None => false,
    })
    ||| count_refs(ks, p as usize) > 1
}

/// The second pass.
pub open spec fn shared_pass(ks: Seq<SignatureParamKind>) -> Seq<SignatureParamKind> {
    Seq::new(
        ks.len(),
        |p: int|
            if shared(ks, p) {
                SignatureParamKind::Other
            } else {
                ks[p]
            },
    )
}

/// One step of the third pass, at position `p`.
pub open spec fn byte_step(
    facts: Seq<ParamFacts>,
    ks: Seq<SignatureParamKind>,
    p: int,
) -> Seq<SignatureParamKind> {
    match ks[p] {
        SignatureParamKind::ArrayRelativeByteLen(r) => if !facts[p].byte_size {
            let cleared = ks.update(p, SignatureParamKind::Other);
            if r < ks.len() {
                cleared.update(r as int, SignatureParamKind::Other)
            } else {
                cleared
            }
        } else {
            ks
        },
        _ => ks,
    }
}

/// The third pass over positions `0..k`.
pub open spec fn byte_pass(
    facts: Seq<ParamFacts>,
    ks: Seq<SignatureParamKind>,
    k: nat,
) -> Seq<SignatureParamKind>
    decreases k,
{
    if k == 0 {
        ks
    } else {
        byte_step(facts, byte_pass(facts, ks, (k - 1) as nat), k - 1)
    }
}

/// A parameter that can be converted into its type by the caller: an input
/// that is neither an array nor a pointer, of a borrowed, non-exclusive
/// interface or trivially convertible type.
pub open spec fn convertible(f: ParamFacts, k: SignatureParamKind) -> bool {
    &&& !f.is_out
    &&& !f.winrt_array
    &&& !f.is_pointer
    &&& !k.spec_is_array()
    &&& (f.borrowed || f.non_exclusive || f.trivially_convertible)
}

/// The fourth pass at one parameter: an `Other` parameter is classified by
/// its type; other kinds stay.
pub open spec fn classify(f: ParamFacts, k: SignatureParamKind) -> SignatureParamKind {
    if k == SignatureParamKind::Other {
        if convertible(f, k) {
            if f.non_exclusive {
                SignatureParamKind::TryInto
            } else {
                SignatureParamKind::IntoParam
            }
        } else if f.is_pointer && (f.is_optional || f.reserved) {
            SignatureParamKind::OptionalPointer
        } else if f.primitive && (!f.is_pointer || f.deref_blittable) {
            SignatureParamKind::ValueType
        } else if f.blittable {
            SignatureParamKind::Blittable
        } else {
            SignatureParamKind::Other
        }
    } else {
        k
    }
}

pub open spec fn classify_pass(
    facts: Seq<ParamFacts>,
    ks: Seq<SignatureParamKind>,
) -> Seq<SignatureParamKind> {
    Seq::new(ks.len(), |p: int| classify(facts[p], ks[p]))
}

/// The settled kinds, or `None` where a length position lies past the last
/// parameter.
pub open spec fn spec_resolve(
    facts: Seq<ParamFacts>,
    ks: Seq<SignatureParamKind>,
) -> Option<Seq<SignatureParamKind>> {
    match link_pass(facts, ks, ks.len()) {
        Some(linked) => {
            let n = ks.len();
            Some(classify_pass(facts, byte_pass(facts, shared_pass(linked), n)))
        },
        None => None,
    }
}

/// The view of an optional vector of kinds.
pub open spec fn opt_seq(r: Option<Vec<SignatureParamKind>>) -> Option<Seq<SignatureParamKind>> {
    match r {
        Some(v) => Some(v@),
        None => None,
    }
}

/// Every length position that a kind names lies below `n`.
pub open spec fn lengths_below(ks: Seq<SignatureParamKind>, n: nat) -> bool {
    forall|p: int|
        #![trigger ks[p]]
        0 <= p < ks.len() ==> match ks[p].len_param() {
            Some(t) => t < n,
            None => true,
        }
}

proof fn lemma_link_none(facts: Seq<ParamFacts>, ks: Seq<SignatureParamKind>, k: nat, m: nat)
    requires
        k <= m,
        link_pass(facts, ks, k) is None,
    ensures
        link_pass(facts, ks, m) is None,
    decreases m - k,
{
    if k < m {
        lemma_link_none(facts, ks, k + 1, m);
    }
}

/// After `k` steps of the first pass, every visited position names only
/// lengths in range, and every position not yet visited is as it was or has
/// become a length parameter.
proof fn lemma_link_shape(facts: Seq<ParamFacts>, ks: Seq<SignatureParamKind>, k: nat)
    requires
        k <= ks.len(),
        facts.len() == ks.len(),
        link_pass(facts, ks, k) is Some,
    ensures
        ({
            let cur = link_pass(facts, ks, k).unwrap();
            &&& cur.len() == ks.len()
            &&& forall|p: int|
                #![trigger cur[p]]
                0 <= p < k ==> match cur[p].len_param() {
                    Some(t) => t < ks.len() && t != p,
                    None => true,
                }
            &&& forall|p: int|
                #![trigger cur[p]]
                k <= p < ks.len() ==> (cur[p] == ks[p] || cur[p] is ArrayRelativePtr)
        }),
    decreases k,
{
    if k > 0 {
        lemma_link_shape(facts, ks, (k - 1) as nat);
    }
}

/// The first pass, when it succeeds, leaves every length position in range.
proof fn lemma_linked_lengths_below(facts: Seq<ParamFacts>, ks: Seq<SignatureParamKind>)
    requires
        facts.len() == ks.len(),
        link_pass(facts, ks, ks.len()) is Some,
    ensures
        link_pass(facts, ks, ks.len()).unwrap().len() == ks.len(),
        lengths_below(link_pass(facts, ks, ks.len()).unwrap(), ks.len()),
{
    lemma_link_shape(facts, ks, ks.len());
}

fn link_array_params(facts: &Vec<ParamFacts>, kinds: Vec<SignatureParamKind>) -> (r: Option<
    Vec<SignatureParamKind>,
>)
    requires
        facts@.len() == kinds@.len(),
    ensures
        opt_seq(r) == link_pass(facts@, kinds@, kinds@.len()),
{
    let ghost orig = kinds@;
    let mut ks = kinds;
    let n = ks.len();
    let mut p: usize = 0;
    while p < n
        invariant
            n == orig.len(),
            orig == kinds@,
            facts@.len() == n,
            ks@.len() == n,
            0 <= p <= n,
            link_pass(facts@, orig, p as nat) == Some(ks@),
        decreases n - p,
    {
        let k = ks[p];
        match k {
            SignatureParamKind::ArrayRelativeLen(t) | SignatureParamKind::ArrayRelativeByteLen(t) => {
                if t >= n {
                    assert(ks@[p as int].len_param() == Some(t));
                    assert(link_pass(facts@, orig, (p + 1) as nat) is None);
                    proof {
                        lemma_link_none(facts@, orig, (p + 1) as nat, n as nat);
                    }
                    return None;
                }
                if !facts[t].is_out && p != t && !facts[t].is_pointer {
                    ks.set(t, SignatureParamKind::ArrayRelativePtr(p));
                } else {
                    ks.set(p, SignatureParamKind::Other);
                }
            },
            SignatureParamKind::ArrayFixed(_) => {
                if facts[p].free_with {
                    ks.set(p, SignatureParamKind::Other);
                }
            },
            _ => {},
        }
        p += 1;
    }
    Some(ks)
}

proof fn lemma_count_take_step(ks: Seq<SignatureParamKind>, q: int, r: usize)
    requires
        0 <= q < ks.len(),
    ensures
        count_refs(ks.take(q + 1), r) == count_refs(ks.take(q), r) + if ks[q].len_param() == Some(
            r,
        ) {
            1nat
        } else {
            0nat
        },
{
    assert(ks.take(q + 1).drop_last() =~= ks.take(q));
}

fn drop_shared_lengths(ks: Vec<SignatureParamKind>) -> (r: Vec<SignatureParamKind>)
    requires
        lengths_below(ks@, ks@.len()),
    ensures
        r@ == shared_pass(ks@),
        r@.len() == ks@.len(),
{
    let n = ks.len();
    let mut counts: Vec<usize> = Vec::new();
    let mut i: usize = 0;
    while i < n
        invariant
            n == ks@.len(),
            0 <= i <= n,
            counts@.len() == i,
            forall|x: int| 0 <= x < i ==> counts@[x] == 0,
        decreases n - i,
    {
        counts.push(0);
        i += 1;
    }
    assert(ks@.take(0) =~= Seq::<SignatureParamKind>::empty());
    let mut q: usize = 0;
    while q < n
        invariant
            n == ks@.len(),
            lengths_below(ks@, ks@.len()),
            0 <= q <= n,
            counts@.len() == n,
            forall|x: int|
                #![trigger counts@[x]]
                0 <= x < n ==> counts@[x] == count_refs(ks@.take(q as int), x as usize)
                    && counts@[x] <= q,
        decreases n - q,
    {
        proof {
            assert forall|x: int| 0 <= x < n implies #[trigger] count_refs(
                ks@.take(q + 1),
                x as usize,
            ) == count_refs(ks@.take(q as int), x as usize) + if ks@[q as int].len_param() == Some(
                x as usize,
            ) {
                1nat
            } else {
                0nat
            } by {
                lemma_count_take_step(ks@, q as int, x as usize);
            }
            assert(ks@[q as int] == ks@[q as int]);
        }
        match ks[q] {
            SignatureParamKind::ArrayRelativeLen(t) | SignatureParamKind::ArrayRelativeByteLen(t) => {
                let c = counts[t];
                counts.set(t, c + 1);
            },
            _ => {},
        }
        q += 1;
    }
    assert(ks@.take(n as int) =~= ks@);
    let mut out: Vec<SignatureParamKind> = Vec::new();
    let mut p: usize = 0;
    while p < n
        invariant
            n == ks@.len(),
            lengths_below(ks@, ks@.len()),
            counts@.len() == n,
            forall|x: int|
                #![trigger counts@[x]]
                0 <= x < n ==> counts@[x] == count_refs(ks@, x as usize),
            0 <= p <= n,
            out@.len() == p,
            forall|x: int| 0 <= x < p ==> out@[x] == shared_pass(ks@)[x],
        decreases n - p,
    {
        let k = ks[p];
        assert(k == ks@[p as int]);
        let by_array = match k {
            SignatureParamKind::ArrayRelativeLen(t) | SignatureParamKind::ArrayRelativeByteLen(t) => {
                counts[t] > 1
            },
            _ => false,
        };
        let clear = by_array || counts[p] > 1;
        if clear {
            out.push(SignatureParamKind::Other);
        } else {
            out.push(k);
        }
        p += 1;
    }
    assert(out@ =~= shared_pass(ks@));
    out
}

fn drop_non_byte_arrays(facts: &Vec<ParamFacts>, kinds: Vec<SignatureParamKind>) -> (r: Vec<
    SignatureParamKind,
>)
    requires
        facts@.len() == kinds@.len(),
        lengths_below(kinds@, kinds@.len()),
    ensures
        r@ == byte_pass(facts@, kinds@, kinds@.len()),
        r@.len() == kinds@.len(),
{
    let ghost orig = kinds@;
    let mut ks = kinds;
    let n = ks.len();
    let mut p: usize = 0;
    while p < n
        invariant
            n == orig.len(),
            facts@.len() == n,
            ks@.len() == n,
            lengths_below(ks@, n as nat),
            0 <= p <= n,
            ks@ == byte_pass(facts@, orig, p as nat),
        decreases n - p,
    {
        let k = ks[p];
        assert(k == ks@[p as int]);
        match k {
            SignatureParamKind::ArrayRelativeByteLen(t) => {
                if !facts[p].byte_size {
                    ks.set(p, SignatureParamKind::Other);
                    ks.set(t, SignatureParamKind::Other);
                }
            },
            _ => {},
        }
        p += 1;
    }
    ks
}

/// The fourth pass at one parameter (see `classify`).
pub fn classify_param(f: &ParamFacts, k: SignatureParamKind) -> (r: SignatureParamKind)
    ensures
        r == classify(*f, k),
{
    if matches!(k, SignatureParamKind::Other) {
        if !f.is_out && !f.winrt_array && !f.is_pointer && !k.is_array() && (f.borrowed
            || f.non_exclusive || f.trivially_convertible) {
            if f.non_exclusive {
                SignatureParamKind::TryInto
            } else {
                SignatureParamKind::IntoParam
            }
        } else if f.is_pointer && (f.is_optional || f.reserved) {
            SignatureParamKind::OptionalPointer
        } else if f.primitive && (!f.is_pointer || f.deref_blittable) {
            SignatureParamKind::ValueType
        } else if f.blittable {
            SignatureParamKind::Blittable
        } else {
            SignatureParamKind::Other
        }
    } else {
        k
    }
}

/// Settles the kind of every parameter (see `spec_resolve`): `None` exactly
/// where an array names a length position past the last parameter.
pub fn resolve_param_kinds(facts: &Vec<ParamFacts>, kinds: Vec<SignatureParamKind>) -> (r: Option<
    Vec<SignatureParamKind>,
>)
    requires
        facts@.len() == kinds@.len(),
    ensures
        opt_seq(r) == spec_resolve(facts@, kinds@),
{
    match settle_lengths(facts, kinds) {
        Some(bytes) => Some(classify_kinds(facts, &bytes)),
        None => None,
    }
}

/// The kinds after the first three passes, which settle arrays and their
/// lengths; `None` where a length position lies past the last parameter.
pub open spec fn spec_settle_lengths(
    facts: Seq<ParamFacts>,
    ks: Seq<SignatureParamKind>,
) -> Option<Seq<SignatureParamKind>> {
    match link_pass(facts, ks, ks.len()) {
        Some(linked) => Some(byte_pass(facts, shared_pass(linked), ks.len())),
        None => None,
    }
}

/// The first three passes (see `spec_settle_lengths`).
pub fn settle_lengths(facts: &Vec<ParamFacts>, kinds: Vec<SignatureParamKind>) -> (r: Option<
    Vec<SignatureParamKind>,
>)
    requires
        facts@.len() == kinds@.len(),
    ensures
        opt_seq(r) == spec_settle_lengths(facts@, kinds@),
        r matches Some(b) ==> b@.len() == kinds@.len(),
{
    let ghost orig = kinds@;
    let linked = match link_array_params(facts, kinds) {
        Some(l) => l,
        None => {
            return None;
        },
    };
    proof {
        lemma_linked_lengths_below(facts@, orig);
    }
    let ghost linked_view = linked@;
    let unshared = drop_shared_lengths(linked);
    assert(lengths_below(unshared@, unshared@.len())) by {
        assert forall|p: int| 0 <= p < unshared@.len() implies match #[trigger] unshared@[p].len_param() {
            Some(t) => t < unshared@.len(),
            None => true,
        } by {
            assert(linked_view[p] == linked_view[p]);
        }
    }
    let bytes = drop_non_byte_arrays(facts, unshared);
    Some(bytes)
}

/// The fourth pass (see `classify_pass`).
pub fn classify_kinds(facts: &Vec<ParamFacts>, bytes: &Vec<SignatureParamKind>) -> (r: Vec<
    SignatureParamKind,
>)
    requires
        facts@.len() == bytes@.len(),
    ensures
        r@ == classify_pass(facts@, bytes@),
{
    let n = bytes.len();
    let mut out: Vec<SignatureParamKind> = Vec::new();
    let mut p: usize = 0;
    while p < n
        invariant
            n == bytes@.len(),
            facts@.len() == n,
            0 <= p <= n,
            out@.len() == p,
            forall|x: int| 0 <= x < p ==> out@[x] == classify(facts@[x], bytes@[x]),
        decreases n - p,
    {
        out.push(classify_param(&facts[p], bytes[p]));
        p += 1;
    }
    assert(out@ =~= classify_pass(facts@, bytes@));
    out
}

/// Every parameter that names a length parameter is itself a pointer.
pub open spec fn arrays_are_pointers(facts: Seq<ParamFacts>, ks: Seq<SignatureParamKind>) -> bool {
    forall|p: int|
        #![trigger ks[p]]
        0 <= p < ks.len() && ks[p].len_param() is Some ==> facts[p].is_pointer
}

/// No array names another array as its length (an array may name itself).
pub open spec fn lengths_not_arrays(ks: Seq<SignatureParamKind>) -> bool {
    forall|p: int|
        #![trigger ks[p]]
        0 <= p < ks.len() ==> match ks[p].len_param() {
            Some(r) => r < ks.len() && r != p ==> ks[r as int].len_param() is None,
            None => true,
        }
}

/// No parameter that an array names as its length, in range, other than the
/// array and not a pointer, names a length itself; it holds where every array is a pointer
/// and where no array names another array.
pub open spec fn lengths_apart(facts: Seq<ParamFacts>, ks: Seq<SignatureParamKind>) -> bool {
    forall|p: int|
        #![trigger ks[p]]
        0 <= p < ks.len() ==> match ks[p].len_param() {
            Some(r) => r < ks.len() && r != p && !facts[r as int].is_pointer ==> ks[
                r as int
            ].len_param() is None,
            None => true,
        }
}

proof fn lemma_lengths_apart(facts: Seq<ParamFacts>, ks: Seq<SignatureParamKind>)
    requires
        facts.len() == ks.len(),
        arrays_are_pointers(facts, ks) || lengths_not_arrays(ks),
    ensures
        lengths_apart(facts, ks),
{
    assert forall|p: int| 0 <= p < ks.len() implies match #[trigger] ks[p].len_param() {
        Some(r) => r < ks.len() && r != p && !facts[r as int].is_pointer ==> ks[
            r as int
        ].len_param() is None,
        None => true,
    } by {
        if let Some(r) = ks[p].len_param() {
            if r < ks.len() && !facts[r as int].is_pointer && arrays_are_pointers(facts, ks) {
                if ks[r as int].len_param() is Some {
                    assert(facts[r as int].is_pointer);
                }
            }
        }
    }
}

/// Every array that names a length parameter names one in range, other than
/// itself, whose kind points back at the array.
pub open spec fn lengths_linked(ks: Seq<SignatureParamKind>) -> bool {
    forall|p: int|
        #![trigger ks[p]]
        0 <= p < ks.len() ==> match ks[p].len_param() {
            Some(r) => r < ks.len() && r != p && ks[r as int]
                == SignatureParamKind::ArrayRelativePtr(p as usize),
            None => true,
        }
}

/// The state of the first pass after `k` steps, on parameters whose lengths
/// stand apart from arrays (`lengths_apart`): unvisited positions are as they were or have become
/// non-pointer length parameters; a visited array still naming length `r`
/// named it from the start, `r` is an in-range non-pointer other than the
/// array, and `r` points back at the array or a later one naming `r`.
pub open spec fn link_inv(
    facts: Seq<ParamFacts>,
    ks: Seq<SignatureParamKind>,
    cur: Seq<SignatureParamKind>,
    k: int,
) -> bool {
    let n = ks.len();
    &&& cur.len() == n
    &&& forall|p: int|
        #![trigger cur[p]]
        k <= p < n ==> (cur[p] == ks[p] || (cur[p] is ArrayRelativePtr && !facts[p].is_pointer))
    &&& forall|p: int|
        #![trigger cur[p]]
        0 <= p < k ==> match cur[p].len_param() {
            Some(r) => {
                &&& ks[p].len_param() == Some(r)
                &&& r < n
                &&& r != p
                &&& !facts[r as int].is_pointer
                &&& cur[r as int] is ArrayRelativePtr
                &&& p <= cur[r as int]->ArrayRelativePtr_0 < k
                &&& cur[cur[r as int]->ArrayRelativePtr_0 as int].len_param() == Some(r)
            },
            None => true,
        }
}

proof fn lemma_link_inv(facts: Seq<ParamFacts>, ks: Seq<SignatureParamKind>, k: nat)
    requires
        facts.len() == ks.len(),
        ks.len() <= usize::MAX,
        k <= ks.len(),
        lengths_apart(facts, ks),
        link_pass(facts, ks, k) is Some,
    ensures
        link_inv(facts, ks, link_pass(facts, ks, k).unwrap(), k as int),
    decreases k,
{
    if k > 0 {
        let z = k - 1;
        lemma_link_inv(facts, ks, z as nat);
        let cur = link_pass(facts, ks, z as nat).unwrap();
        let next = link_pass(facts, ks, k).unwrap();
        assert(next == link_step(facts, cur, z).unwrap());
        let n = ks.len();
        assert(cur[z] == ks[z] || (cur[z] is ArrayRelativePtr && !facts[z].is_pointer));
        match cur[z].len_param() {
            Some(r) => {
                assert(cur[z] == ks[z]);
                assert(ks[z].len_param() == Some(r));
                assert(r < n);
                if !facts[r as int].is_out && z != r && !facts[r as int].is_pointer {
                    assert(next == cur.update(r as int, SignatureParamKind::ArrayRelativePtr(z as usize)));
                    assert forall|p: int| 0 <= p < k implies match #[trigger] next[p].len_param() {
                        Some(t) => {
                            &&& ks[p].len_param() == Some(t)
                            &&& t < n
                            &&& t != p
                            &&& !facts[t as int].is_pointer
                            &&& next[t as int] is ArrayRelativePtr
                            &&& p <= next[t as int]->ArrayRelativePtr_0 < k
                            &&& next[next[t as int]->ArrayRelativePtr_0 as int].len_param() == Some(t)
                        },
                        None => true,
                    } by {
                        if p == z {
                            assert(next[p] == cur[p]);
                            assert(next[r as int] == SignatureParamKind::ArrayRelativePtr(z as usize));
                            assert(next[r as int]->ArrayRelativePtr_0 == z);
                        } else if p != r as int {
                            assert(next[p] == cur[p]);
                            if let Some(t) = cur[p].len_param() {
                                let q = cur[t as int]->ArrayRelativePtr_0;
                                assert(cur[q as int].len_param() == Some(t));
                                assert(ks[q as int].len_param() == Some(t));
                                if t != r {
                                    assert(next[t as int] == cur[t as int]);
                                    assert(next[q as int] == cur[q as int]);
                                } else {
                                    assert(next[z].len_param() == Some(r));
                                    assert(next[t as int]->ArrayRelativePtr_0 == z);
                                }
                            }
                        }
                    }
                } else {
                    assert(next == cur.update(z, SignatureParamKind::Other));
                    assert forall|p: int| 0 <= p < k implies match #[trigger] next[p].len_param() {
                        Some(t) => {
                            &&& ks[p].len_param() == Some(t)
                            &&& t < n
                            &&& t != p
                            &&& !facts[t as int].is_pointer
                            &&& next[t as int] is ArrayRelativePtr
                            &&& p <= next[t as int]->ArrayRelativePtr_0 < k
                            &&& next[next[t as int]->ArrayRelativePtr_0 as int].len_param() == Some(t)
                        },
                        None => true,
                    } by {
                        if p != z {
                            assert(next[p] == cur[p]);
                            if let Some(t) = cur[p].len_param() {
                                let q = cur[t as int]->ArrayRelativePtr_0;
                                assert(next[t as int] == cur[t as int]);
                                assert(next[q as int] == cur[q as int]);
                            }
                        }
                    }
                }
            },
            None => {
                if cur[z] is ArrayFixed && facts[z].free_with {
                    assert(next == cur.update(z, SignatureParamKind::Other));
                    assert forall|p: int| 0 <= p < k implies match #[trigger] next[p].len_param() {
                        Some(t) => {
                            &&& ks[p].len_param() == Some(t)
                            &&& t < n
                            &&& t != p
                            &&& !facts[t as int].is_pointer
                            &&& next[t as int] is ArrayRelativePtr
                            &&& p <= next[t as int]->ArrayRelativePtr_0 < k
                            &&& next[next[t as int]->ArrayRelativePtr_0 as int].len_param() == Some(t)
                        },
                        None => true,
                    } by {
                        if p != z {
                            assert(next[p] == cur[p]);
                            if let Some(t) = cur[p].len_param() {
                                let q = cur[t as int]->ArrayRelativePtr_0;
                                assert(next[t as int] == cur[t as int]);
                                assert(next[q as int] == cur[q as int]);
                            }
                        }
                    }
                } else {
                    assert(next == cur);
                }
            },
        }
    }
}

proof fn lemma_count_one(ks: Seq<SignatureParamKind>, r: usize, p: int)
    requires
        0 <= p < ks.len(),
        ks[p].len_param() == Some(r),
    ensures
        count_refs(ks, r) >= 1,
    decreases ks.len(),
{
    if p < ks.len() - 1 {
        lemma_count_one(ks.drop_last(), r, p);
    }
}

proof fn lemma_count_two(ks: Seq<SignatureParamKind>, r: usize, p: int, q: int)
    requires
        0 <= p < q < ks.len(),
        ks[p].len_param() == Some(r),
        ks[q].len_param() == Some(r),
    ensures
        count_refs(ks, r) >= 2,
    decreases ks.len(),
{
    if q == ks.len() - 1 {
        lemma_count_one(ks.drop_last(), r, p);
    } else {
        lemma_count_two(ks.drop_last(), r, p, q);
    }
}

/// Links as the passes after the first keep them: every array naming length
/// `r` names an in-range non-pointer other than itself, which points back at
/// the array.
pub open spec fn linked_inv(facts: Seq<ParamFacts>, ks: Seq<SignatureParamKind>) -> bool {
    forall|p: int|
        #![trigger ks[p]]
        0 <= p < ks.len() ==> match ks[p].len_param() {
            Some(r) => {
                &&& r < ks.len()
                &&& r != p
                &&& ks[r as int] == SignatureParamKind::ArrayRelativePtr(p as usize)
                &&& !facts[r as int].is_pointer
            },
            None => true,
        }
}

proof fn lemma_shared_linked(facts: Seq<ParamFacts>, ks: Seq<SignatureParamKind>, cur: Seq<SignatureParamKind>)
    requires
        facts.len() == ks.len(),
        ks.len() <= usize::MAX,
        link_inv(facts, ks, cur, ks.len() as int),
    ensures
        linked_inv(facts, shared_pass(cur)),
{
    let out = shared_pass(cur);
    assert forall|p: int| 0 <= p < out.len() implies match #[trigger] out[p].len_param() {
        Some(r) => {
            &&& r < out.len()
            &&& r != p
            &&& out[r as int] == SignatureParamKind::ArrayRelativePtr(p as usize)
            &&& !facts[r as int].is_pointer
        },
        None => true,
    } by {
        if let Some(r) = out[p].len_param() {
            assert(!shared(cur, p));
            assert(out[p] == cur[p]);
            assert(cur[p].len_param() == Some(r));
            assert(ks[p].len_param() == Some(r));
            let q = cur[r as int]->ArrayRelativePtr_0 as int;
            assert(cur[q].len_param() == Some(r));
            if q != p {
                lemma_count_two(cur, r, p, q);
            }
            assert(cur[r as int].len_param() is None);
            if count_refs(cur, r as int as usize) > 1 {
                assert(r as int as usize == r);
            }
            assert(!shared(cur, r as int));
        }
    }
}

proof fn lemma_byte_linked(facts: Seq<ParamFacts>, ks: Seq<SignatureParamKind>, k: nat)
    requires
        facts.len() == ks.len(),
        ks.len() <= usize::MAX,
        k <= ks.len(),
        linked_inv(facts, ks),
    ensures
        linked_inv(facts, byte_pass(facts, ks, k)),
        byte_pass(facts, ks, k).len() == ks.len(),
    decreases k,
{
    if k > 0 {
        let z = k - 1;
        lemma_byte_linked(facts, ks, z as nat);
        let cur = byte_pass(facts, ks, z as nat);
        let next = byte_pass(facts, ks, k);
        assert(next == byte_step(facts, cur, z));
        if let SignatureParamKind::ArrayRelativeByteLen(r) = cur[z] {
            if !facts[z].byte_size {
                assert(cur[z].len_param() == Some(r));
                assert(cur[r as int] == SignatureParamKind::ArrayRelativePtr(z as usize));
                assert forall|p: int| 0 <= p < next.len() implies match #[trigger] next[p].len_param() {
                    Some(t) => {
                        &&& t < next.len()
                        &&& t != p
                        &&& next[t as int] == SignatureParamKind::ArrayRelativePtr(p as usize)
                        &&& !facts[t as int].is_pointer
                    },
                    None => true,
                } by {
                    if p != z && p != r as int {
                        assert(next[p] == cur[p]);
                        if let Some(t) = cur[p].len_param() {
                            assert(cur[t as int] == SignatureParamKind::ArrayRelativePtr(p as usize));
                            assert(t as int != z);
                            assert(t != r);
                            assert(next[t as int] == cur[t as int]);
                        }
                    }
                }
            }
        }
    }
}

proof fn lemma_classify_linked(facts: Seq<ParamFacts>, ks: Seq<SignatureParamKind>)
    requires
        facts.len() == ks.len(),
        linked_inv(facts, ks),
    ensures
        lengths_linked(classify_pass(facts, ks)),
{
    let out = classify_pass(facts, ks);
    assert forall|p: int| 0 <= p < out.len() implies match #[trigger] out[p].len_param() {
        Some(r) => r < out.len() && r != p && out[r as int]
            == SignatureParamKind::ArrayRelativePtr(p as usize),
        None => true,
    } by {
        if ks[p] != SignatureParamKind::Other {
            assert(out[p] == ks[p]);
            if let Some(r) = ks[p].len_param() {
                assert(out[r as int] == ks[r as int]);
            }
        }
    }
}

/// Law: where every array that names a length parameter is a pointer, or no
/// array names another array as its length (naming itself is allowed), the
/// settled kinds link arrays
/// and lengths both ways: an array naming length `r` names an in-range
/// parameter other than itself, and `r` is marked as that array's length. In
/// particular no two arrays share a length.
pub proof fn law_lengths_linked(facts: Seq<ParamFacts>, kinds: Seq<SignatureParamKind>)
    requires
        facts.len() == kinds.len(),
        kinds.len() <= usize::MAX,
        arrays_are_pointers(facts, kinds) || lengths_not_arrays(kinds),
        spec_resolve(facts, kinds) is Some,
    ensures
        lengths_linked(spec_resolve(facts, kinds).unwrap()),
{
    lemma_lengths_apart(facts, kinds);
    let n = kinds.len();
    lemma_link_inv(facts, kinds, n);
    let linked = link_pass(facts, kinds, n).unwrap();
    lemma_shared_linked(facts, kinds, linked);
    let unshared = shared_pass(linked);
    lemma_byte_linked(facts, unshared, n);
    lemma_classify_linked(facts, byte_pass(facts, unshared, n));
}

proof fn lemma_link_fixed(facts: Seq<ParamFacts>, ks: Seq<SignatureParamKind>, k: nat)
    requires
        facts.len() == ks.len(),
        k <= ks.len(),
        link_pass(facts, ks, k) is Some,
    ensures
        ({
            let cur = link_pass(facts, ks, k).unwrap();
            &&& cur.len() == ks.len()
            &&& forall|p: int|
                #![trigger cur[p]]
                0 <= p < k && cur[p] is ArrayFixed ==> !facts[p].free_with
        }),
    decreases k,
{
    if k > 0 {
        let z = k - 1;
        lemma_link_fixed(facts, ks, z as nat);
        let cur = link_pass(facts, ks, z as nat).unwrap();
        let next = link_pass(facts, ks, k).unwrap();
        assert(next == link_step(facts, cur, z).unwrap());
        assert forall|p: int| 0 <= p < k && #[trigger] next[p] is ArrayFixed implies !facts[p].free_with by {
            if p != z {
                match cur[z].len_param() {
                    Some(r) => {
                        if r as int != p {
                            assert(next[p] == cur[p]);
                        }
                    },
                    None => {
                        assert(next[p] == cur[p]);
                    },
                }
            }
        }
    }
}

proof fn lemma_byte_sizes(facts: Seq<ParamFacts>, ks: Seq<SignatureParamKind>, k: nat)
    requires
        facts.len() == ks.len(),
        k <= ks.len(),
    ensures
        ({
            let cur = byte_pass(facts, ks, k);
            &&& cur.len() == ks.len()
            &&& forall|p: int|
                #![trigger cur[p]]
                0 <= p < ks.len() ==> (cur[p] == ks[p] || cur[p] == SignatureParamKind::Other)
            &&& forall|p: int|
                #![trigger cur[p]]
                0 <= p < k && cur[p] is ArrayRelativeByteLen ==> facts[p].byte_size
        }),
    decreases k,
{
    if k > 0 {
        let z = k - 1;
        lemma_byte_sizes(facts, ks, z as nat);
        let cur = byte_pass(facts, ks, z as nat);
        let next = byte_pass(facts, ks, k);
        assert(next == byte_step(facts, cur, z));
        assert forall|p: int| 0 <= p < ks.len() implies (#[trigger] next[p] == ks[p] || next[p]
            == SignatureParamKind::Other) by {
            assert(cur[p] == ks[p] || cur[p] == SignatureParamKind::Other);
        }
        assert forall|p: int| 0 <= p < k && #[trigger] next[p] is ArrayRelativeByteLen implies facts[p].byte_size by {
            assert(cur[p] == ks[p] || cur[p] == SignatureParamKind::Other);
        }
    }
}

/// Law: a fixed-size array parameter that a named function frees is never
/// settled as a fixed array.
pub proof fn law_freed_arrays_not_fixed(facts: Seq<ParamFacts>, kinds: Seq<SignatureParamKind>, p: int)
    requires
        facts.len() == kinds.len(),
        spec_resolve(facts, kinds) is Some,
        0 <= p < kinds.len(),
        spec_resolve(facts, kinds).unwrap()[p] is ArrayFixed,
    ensures
        !facts[p].free_with,
{
    let n = kinds.len();
    lemma_link_fixed(facts, kinds, n);
    let linked = link_pass(facts, kinds, n).unwrap();
    let unshared = shared_pass(linked);
    lemma_byte_sizes(facts, unshared, n);
    let bytes = byte_pass(facts, unshared, n);
    assert(bytes[p] is ArrayFixed);
    assert(unshared[p] == bytes[p]);
    assert(linked[p] == unshared[p]);
}

/// Law: an array settled as having a length in bytes is an array of bytes.
pub proof fn law_byte_length_arrays_address_bytes(
    facts: Seq<ParamFacts>,
    kinds: Seq<SignatureParamKind>,
    p: int,
)
    requires
        facts.len() == kinds.len(),
        spec_resolve(facts, kinds) is Some,
        0 <= p < kinds.len(),
        spec_resolve(facts, kinds).unwrap()[p] is ArrayRelativeByteLen,
    ensures
        facts[p].byte_size,
{
    let n = kinds.len();
    lemma_link_fixed(facts, kinds, n);
    let linked = link_pass(facts, kinds, n).unwrap();
    let unshared = shared_pass(linked);
    lemma_byte_sizes(facts, unshared, n);
    let bytes = byte_pass(facts, unshared, n);
    assert(bytes[p] is ArrayRelativeByteLen);
}

/// Law: a parameter left as `Other` is none of the classified kinds: not
/// convertible, not an optional pointer, not a value type, not blittable.
pub proof fn law_other_is_unclassifiable(facts: Seq<ParamFacts>, kinds: Seq<SignatureParamKind>, p: int)
    requires
        facts.len() == kinds.len(),
        spec_resolve(facts, kinds) is Some,
        0 <= p < kinds.len(),
        spec_resolve(facts, kinds).unwrap()[p] == SignatureParamKind::Other,
    ensures
        !convertible(facts[p], SignatureParamKind::Other),
        !(facts[p].is_pointer && (facts[p].is_optional || facts[p].reserved)),
        !(facts[p].primitive && (!facts[p].is_pointer || facts[p].deref_blittable)),
        !facts[p].blittable,
{
    let n = kinds.len();
    lemma_link_fixed(facts, kinds, n);
    let linked = link_pass(facts, kinds, n).unwrap();
    let unshared = shared_pass(linked);
    lemma_byte_sizes(facts, unshared, n);
}

/// The settled kinds are as many as the parameters.
pub proof fn lemma_resolve_len(facts: Seq<ParamFacts>, kinds: Seq<SignatureParamKind>)
    requires
        facts.len() == kinds.len(),
        spec_resolve(facts, kinds) is Some,
    ensures
        spec_resolve(facts, kinds).unwrap().len() == kinds.len(),
{
    lemma_link_fixed(facts, kinds, kinds.len());
    let linked = link_pass(facts, kinds, kinds.len()).unwrap();
    lemma_byte_sizes(facts, shared_pass(linked), kinds.len());
}

/// Every array names a length parameter in range other than itself, and no
/// two arrays name the same one.
pub open spec fn lengths_distinct(ks: Seq<SignatureParamKind>) -> bool {
    &&& forall|p: int|
        #![trigger ks[p]]
        0 <= p < ks.len() ==> match ks[p].len_param() {
            Some(r) => r < ks.len() && r != p,
            None => true,
        }
    &&& forall|p: int, q: int|
        #![trigger ks[p], ks[q]]
        0 <= p < ks.len() && 0 <= q < ks.len() && p != q && ks[p].len_param() is Some
            ==> ks[p].len_param() != ks[q].len_param()
}

/// Law: in the settled kinds every array names a length parameter in range
/// other than itself, and no two arrays name the same one.
pub proof fn law_lengths_distinct(facts: Seq<ParamFacts>, kinds: Seq<SignatureParamKind>)
    requires
        facts.len() == kinds.len(),
        spec_resolve(facts, kinds) is Some,
    ensures
        lengths_distinct(spec_resolve(facts, kinds).unwrap()),
{
    let n = kinds.len();
    lemma_link_shape(facts, kinds, n);
    let linked = link_pass(facts, kinds, n).unwrap();
    let unshared = shared_pass(linked);
    lemma_byte_sizes(facts, unshared, n);
    let bytes = byte_pass(facts, unshared, n);
    let out = classify_pass(facts, bytes);
    assert forall|p: int| 0 <= p < n && #[trigger] out[p].len_param() is Some implies out[p]
        == unshared[p] && unshared[p] == linked[p] && !shared(linked, p) by {
        assert(out[p] == bytes[p]);
    }
    assert forall|p: int| 0 <= p < out.len() implies match #[trigger] out[p].len_param() {
        Some(r) => r < out.len() && r != p,
        None => true,
    } by {
        if out[p].len_param() is Some {
            assert(linked[p] == out[p]);
        }
    }
    assert forall|p: int, q: int|
        0 <= p < out.len() && 0 <= q < out.len() && p != q && (#[trigger] out[p]).len_param() is Some
            implies out[p].len_param() != (#[trigger] out[q]).len_param() by {
        if out[q].len_param() == out[p].len_param() {
            let r = out[p].len_param().unwrap();
            assert(linked[p].len_param() == Some(r));
            assert(linked[q].len_param() == Some(r));
            if p < q {
                lemma_count_two(linked, r, p, q);
            } else {
                lemma_count_two(linked, r, q, p);
            }
        }
    }
}


/// Law: a parameter still unsettled whose type is primitive and not a pointer
/// is passed by value unless the caller converts it: it settles as
/// `ValueType`, or, where it is an input that is not a Windows Runtime array
/// and whose type is borrowed, a non-exclusive interface or trivially
/// convertible, as `TryInto` or `IntoParam`. It is never `Blittable`,
/// `OptionalPointer` or left as `Other`, whatever its blittability.
pub proof fn law_primitive_values_pass_by_value(f: ParamFacts)
    requires
        f.primitive,
        !f.is_pointer,
    ensures
        classify(f, SignatureParamKind::Other) == SignatureParamKind::ValueType || classify(
            f,
            SignatureParamKind::Other,
        ) == SignatureParamKind::TryInto || classify(f, SignatureParamKind::Other)
            == SignatureParamKind::IntoParam,
        !(!f.is_out && !f.winrt_array && (f.borrowed || f.non_exclusive || f.trivially_convertible))
            ==> classify(f, SignatureParamKind::Other) == SignatureParamKind::ValueType,
{
}
} // verus!
