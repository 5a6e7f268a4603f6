//! Set-like option containers keyed by option *kind*: inserting an
//! option whose kind is already present replaces the prior value in
//! place, so a set never holds two options of the same kind.

use vstd::prelude::*;

verus! {

/// A styling option whose identity, for set membership, is its kind
/// rather than its payload.
pub trait OptionKind: Sized {
    /// Whether two options configure the same setting.
    spec fn same_kind(self, other: Self) -> bool;

    /// Kind equality is reflexive.
    proof fn lemma_same_kind_refl(self)
        ensures
            self.same_kind(self),
    ;

    /// Kind equality is symmetric.
    proof fn lemma_same_kind_sym(self, other: Self)
        ensures
            self.same_kind(other) == other.same_kind(self),
    ;

    /// Kind equality is transitive.
    proof fn lemma_same_kind_trans(self, mid: Self, other: Self)
        requires
            self.same_kind(mid),
            mid.same_kind(other),
        ensures
            self.same_kind(other),
    ;

    /// Decides whether two options configure the same setting.
    fn kind_eq(&self, other: &Self) -> (r: bool)
        ensures
            r == self.same_kind(*other),
    ;
}

/// No two entries of the sequence share a kind.
pub open spec fn unique_kinds<T: OptionKind>(s: Seq<T>) -> bool {
    forall|i: int, j: int| 0 <= i < j < s.len() ==> !(#[trigger] s[i].same_kind(s[j]))
}

/// Insertion by kind: replace the first entry of the same kind in
/// place, or append at the end when no entry has that kind.
pub open spec fn spec_insert<T: OptionKind>(s: Seq<T>, o: T) -> Seq<T>
    decreases s.len(),
{
    if s.len() == 0 {
        seq![o]
    } else if s[0].same_kind(o) {
        seq![o] + s.drop_first()
    } else {
        seq![s[0]] + spec_insert(s.drop_first(), o)
    }
}

/// A collection of options keyed by kind, in insertion order of kinds.
#[derive(Debug)]
pub struct OptionSet<T> {
    pub items: Vec<T>,
}

impl<T: OptionKind> OptionSet<T> {
    /// Whether the set's invariant holds: every kind occurs at most once.
    pub open spec fn wf(&self) -> bool {
        unique_kinds(self.items@)
    }

    /// An empty option set.
    pub fn new() -> (r: Self)
        ensures
            r.items@ == Seq::<T>::empty(),
            r.wf(),
    {
        let r = OptionSet { items: Vec::new() };
        proof {
            assert(r.items@ =~= Seq::<T>::empty());
        }
        r
    }

    /// Inserts `o`, replacing the entry of the same kind if one is
    /// present; the set keeps at most one entry per kind.
    pub fn insert(&mut self, o: T)
        ensures
            final(self).items@ == spec_insert(old(self).items@, o),
            old(self).wf() ==> final(self).wf(),
    {
        let ghost orig = self.items@;
        let n = self.items.len();
        let mut i: usize = 0;
        while i < n
            invariant
                0 <= i <= n,
                n == self.items@.len(),
                self.items@ == orig,
                orig == old(self).items@,
                forall|j: int| 0 <= j < i ==> !(#[trigger] orig[j].same_kind(o)),
            decreases n - i,
        {
            if self.items[i].kind_eq(&o) {
                proof {
                    assert(orig[i as int].same_kind(o));
                }
                self.items[i] = o;
                proof {
                    assert(self.items@ == orig.update(i as int, o));
                    lemma_insert_found(orig, o, i as int);
                    assert(self.items@ == spec_insert(orig, o));
                    if unique_kinds(orig) {
                        lemma_insert_unique_update(orig, o, i as int);
                    }
                }
                return ;
            }
            i += 1;
        }
        self.items.push(o);
        proof {
            lemma_insert_missing(orig, o);
            if unique_kinds(orig) {
                lemma_insert_unique_push(orig, o);
            }
        }
    }

    /// The first entry of the same kind as `probe`, if one is present.
    pub fn get(&self, probe: &T) -> (r: Option<&T>)
        ensures
            match r {
                Some(v) => exists|i: int|
                    0 <= i < self.items@.len() && (#[trigger] self.items@[i]).same_kind(*probe)
                        && *v == self.items@[i] && forall|j: int|
                        0 <= j < i ==> !(#[trigger] self.items@[j].same_kind(*probe)),
                None => forall|i: int|
                    0 <= i < self.items@.len() ==> !(#[trigger] self.items@[i]).same_kind(
                        *probe,
                    ),
            },
    {
        let n = self.items.len();
        let mut i: usize = 0;
        while i < n
            invariant
                0 <= i <= n,
                n == self.items@.len(),
                forall|j: int| 0 <= j < i ==> !(#[trigger] self.items@[j].same_kind(*probe)),
            decreases n - i,
        {
            if self.items[i].kind_eq(probe) {
                return Some(&self.items[i]);
            }
            i += 1;
        }
        None
    }

    /// Whether an entry of the same kind as `probe` is present.
    pub fn contains_kind(&self, probe: &T) -> (r: bool)
        ensures
            r == exists|i: int|
                0 <= i < self.items@.len() && (#[trigger] self.items@[i]).same_kind(*probe),
    {
        match self.get(probe) {
            Some(_) => true,
            None => false,
        }
    }

    /// How many options the set holds.
    pub fn len(&self) -> (r: usize)
        ensures
            r == self.items@.len(),
    {
        self.items.len()
    }
}

/// When the first entry of the same kind as `o` stands at `i`,
/// insertion replaces it in place.
proof fn lemma_insert_found<T: OptionKind>(s: Seq<T>, o: T, i: int)
    requires
        0 <= i < s.len(),
        s[i].same_kind(o),
        forall|j: int| 0 <= j < i ==> !(#[trigger] s[j].same_kind(o)),
    ensures
        spec_insert(s, o) == s.update(i, o),
    decreases s.len(),
{
    if i == 0 {
        assert(seq![o] + s.drop_first() =~= s.update(0, o));
    } else {
        lemma_insert_found(s.drop_first(), o, i - 1);
        assert(seq![s[0]] + s.drop_first().update(i - 1, o) =~= s.update(i, o));
    }
}

/// When no entry has the kind of `o`, insertion appends it.
proof fn lemma_insert_missing<T: OptionKind>(s: Seq<T>, o: T)
    requires
        forall|j: int| 0 <= j < s.len() ==> !(#[trigger] s[j].same_kind(o)),
    ensures
        spec_insert(s, o) == s.push(o),
    decreases s.len(),
{
    if s.len() == 0 {
        assert(seq![o] =~= s.push(o));
    } else {
        lemma_insert_missing(s.drop_first(), o);
        assert(seq![s[0]] + s.drop_first().push(o) =~= s.push(o));
    }
}

/// Replacing an entry by one of the same kind keeps kinds unique.
proof fn lemma_insert_unique_update<T: OptionKind>(s: Seq<T>, o: T, i: int)
    requires
        unique_kinds(s),
        0 <= i < s.len(),
        s[i].same_kind(o),
    ensures
        unique_kinds(s.update(i, o)),
{
    let t = s.update(i, o);
    assert forall|p: int, q: int| 0 <= p < q < t.len() implies !(#[trigger] t[p].same_kind(
        t[q],
    )) by {
        if p != i && q != i {
            assert(!s[p].same_kind(s[q]));
        } else if p == i {
            // t[p] is o, of the kind of s[i].
            assert(!s[i].same_kind(s[q]));
            if o.same_kind(s[q]) {
                s[i].lemma_same_kind_trans(o, s[q]);
            }
        } else {
            assert(!s[p].same_kind(s[i]));
            if s[p].same_kind(o) {
                o.lemma_same_kind_sym(s[i]);
                s[i].lemma_same_kind_sym(o);
                s[p].lemma_same_kind_trans(o, s[i]);
            }
        }
    }
}

/// Appending an option of a kind not yet present keeps kinds unique.
proof fn lemma_insert_unique_push<T: OptionKind>(s: Seq<T>, o: T)
    requires
        unique_kinds(s),
        forall|j: int| 0 <= j < s.len() ==> !(#[trigger] s[j].same_kind(o)),
    ensures
        unique_kinds(s.push(o)),
{
    let t = s.push(o);
    assert forall|p: int, q: int| 0 <= p < q < t.len() implies !(#[trigger] t[p].same_kind(
        t[q],
    )) by {
        if q < s.len() {
            assert(!s[p].same_kind(s[q]));
        } else {
            assert(!s[p].same_kind(o));
        }
    }
}

/// How many entries of the sequence share a kind with `o`.
pub open spec fn kind_count<T: OptionKind>(s: Seq<T>, o: T) -> nat
    decreases s.len(),
{
    if s.len() == 0 {
        0
    } else {
        (if s[0].same_kind(o) {
            1nat
        } else {
            0nat
        }) + kind_count(s.drop_first(), o)
    }
}

/// Some entry of `t` is `o` itself, and no other entry shares its kind.
pub open spec fn sole_entry_of_kind<T: OptionKind>(t: Seq<T>, o: T) -> bool {
    exists|i: int|
        0 <= i < t.len() && #[trigger] t[i] == o && (forall|j: int|
            0 <= j < t.len() && j != i ==> !(#[trigger] t[j].same_kind(o)))
}

/// Inserting two options of one kind leaves exactly one entry of that
/// kind, holding the most recently inserted value.
pub proof fn lemma_option_overwrite<T: OptionKind>(s: Seq<T>, first: T, second: T)
    requires
        unique_kinds(s),
        first.same_kind(second),
    ensures
        kind_count(spec_insert(spec_insert(s, first), second), second) == 1,
        sole_entry_of_kind(spec_insert(spec_insert(s, first), second), second),
{
    let mid = spec_insert(s, first);
    lemma_insert_kind_present(s, first);
    let i = choose|i: int|
        0 <= i < mid.len() && (#[trigger] mid[i].same_kind(first)) && mid[i] == first;
    lemma_insert_unique(s, first);
    first.lemma_same_kind_sym(second);
    assert(mid[i].same_kind(second));
    lemma_first_kind_slot(mid, second, i);
    lemma_insert_found(mid, second, first_kind_slot(mid, second));
    let t = mid.update(first_kind_slot(mid, second), second);
    let fi = first_kind_slot(mid, second);
    assert(t[fi] == second);
    lemma_insert_unique(s, first);
    lemma_insert_unique_update(mid, second, fi);
    assert forall|j: int| 0 <= j < t.len() && j != fi implies !(#[trigger] t[j].same_kind(
        second,
    )) by {
        if t[j].same_kind(second) {
            second.lemma_same_kind_sym(t[j]);
            if j < fi {
                assert(!t[j].same_kind(t[fi]));
                second.lemma_same_kind_sym(t[fi]);
                t[j].lemma_same_kind_trans(second, t[fi]);
            } else {
                assert(!t[fi].same_kind(t[j]));
                t[fi].lemma_same_kind_trans(second, t[j]);
            }
        }
    }
    lemma_kind_count_one(t, second, fi);
}

/// The slot of the first entry sharing a kind with `o`.
pub open spec fn first_kind_slot<T: OptionKind>(s: Seq<T>, o: T) -> int {
    choose|i: int|
        0 <= i < s.len() && (#[trigger] s[i].same_kind(o)) && forall|j: int|
            0 <= j < i ==> !(#[trigger] s[j].same_kind(o))
}

/// When some entry at or before `i` shares a kind with `o`, a first
/// such slot exists and `first_kind_slot` names it.
proof fn lemma_first_kind_slot<T: OptionKind>(s: Seq<T>, o: T, i: int)
    requires
        0 <= i < s.len(),
        s[i].same_kind(o),
    ensures
        ({
            let f = first_kind_slot(s, o);
            0 <= f <= i && s[f].same_kind(o) && (forall|j: int|
                0 <= j < f ==> !(#[trigger] s[j].same_kind(o)))
        }),
    decreases i,
{
    if exists|j: int| 0 <= j < i && (#[trigger] s[j].same_kind(o)) {
        let j = choose|j: int| 0 <= j < i && (#[trigger] s[j].same_kind(o));
        lemma_first_kind_slot(s, o, j);
    } else {
        assert(0 <= i < s.len() && s[i].same_kind(o) && forall|j: int|
            0 <= j < i ==> !(#[trigger] s[j].same_kind(o)));
    }
}

/// After inserting `o`, some entry equals `o` and shares its kind.
proof fn lemma_insert_kind_present<T: OptionKind>(s: Seq<T>, o: T)
    ensures
        (exists|i: int|
            0 <= i < spec_insert(s, o).len() && (#[trigger] spec_insert(s, o)[i].same_kind(o))
                && spec_insert(s, o)[i] == o),
    decreases s.len(),
{
    o.lemma_same_kind_refl();
    if s.len() == 0 {
        assert(spec_insert(s, o)[0] == o);
    } else if s[0].same_kind(o) {
        assert(spec_insert(s, o)[0] == o);
    } else {
        lemma_insert_kind_present(s.drop_first(), o);
        let i = choose|i: int|
            0 <= i < spec_insert(s.drop_first(), o).len() && (#[trigger] spec_insert(
                s.drop_first(),
                o,
            )[i].same_kind(o)) && spec_insert(s.drop_first(), o)[i] == o;
        assert(spec_insert(s, o)[i + 1] == o);
    }
}

/// Insertion into a set with unique kinds keeps kinds unique.
pub proof fn lemma_insert_unique<T: OptionKind>(s: Seq<T>, o: T)
    requires
        unique_kinds(s),
    ensures
        unique_kinds(spec_insert(s, o)),
{
    if exists|i: int| 0 <= i < s.len() && (#[trigger] s[i].same_kind(o)) {
        let i = choose|i: int| 0 <= i < s.len() && (#[trigger] s[i].same_kind(o));
        lemma_first_kind_slot(s, o, i);
        let f = first_kind_slot(s, o);
        lemma_insert_found(s, o, f);
        lemma_insert_unique_update(s, o, f);
    } else {
        lemma_insert_missing(s, o);
        lemma_insert_unique_push(s, o);
    }
}

/// A sequence whose only entry of the kind of `o` stands at `i`, and
/// holds `o` itself, counts that kind exactly once.
proof fn lemma_kind_count_one<T: OptionKind>(s: Seq<T>, o: T, i: int)
    requires
        0 <= i < s.len(),
        s[i] == o,
        forall|j: int| 0 <= j < s.len() && j != i ==> !(#[trigger] s[j].same_kind(o)),
    ensures
        kind_count(s, o) == 1,
    decreases s.len(),
{
    o.lemma_same_kind_refl();
    if i == 0 {
        lemma_kind_count_zero(s.drop_first(), o);
    } else {
        assert(!s[0].same_kind(o));
        lemma_kind_count_one(s.drop_first(), o, i - 1);
    }
}

/// A sequence with no entry of the kind of `o` counts that kind zero times.
proof fn lemma_kind_count_zero<T: OptionKind>(s: Seq<T>, o: T)
    requires
        forall|j: int| 0 <= j < s.len() ==> !(#[trigger] s[j].same_kind(o)),
    ensures
        kind_count(s, o) == 0,
    decreases s.len(),
{
    if s.len() > 0 {
        lemma_kind_count_zero(s.drop_first(), o);
    }
}

} // verus!
