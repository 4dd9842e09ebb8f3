use vstd::prelude::*;

verus! {

/// Element kind of a tensor.
#[derive(Clone, Copy, Debug, PartialEq, Eq, Structural)]
pub enum Dtype {
    F32,
    F16,
    I32,
}

/// The type of a graph node: an ordered shape and an element kind.
#[derive(Clone, Debug)]
pub struct TensorType {
    pub shape: Vec<usize>,
    pub dtype: Dtype,
}

impl View for TensorType {
    type V = (Seq<usize>, Dtype);

    open spec fn view(&self) -> (Seq<usize>, Dtype) {
        (self.shape@, self.dtype)
    }
}

/// Number of elements of a tensor of the given shape.
pub open spec fn numel(s: Seq<usize>) -> nat
    decreases s.len(),
{
    if s.len() == 0 {
        1
    } else {
        numel(s.drop_last()) * (s.last() as nat)
    }
}

/// A shape is valid when it is not empty and no dimension is zero.
pub open spec fn valid_shape(s: Seq<usize>) -> bool {
    &&& s.len() > 0
    &&& forall|i: int| 0 <= i < s.len() ==> #[trigger] s[i] >= 1
}

/// `s` with the entries at `a` and `b` exchanged.
pub open spec fn swapped(s: Seq<usize>, a: int, b: int) -> Seq<usize> {
    s.update(a, s[b]).update(b, s[a])
}

impl TensorType {
    /// A shape is valid when it is not empty and no dimension is zero.
    pub open spec fn wf(&self) -> bool {
        valid_shape(self.shape@)
    }

    pub fn new(shape: Vec<usize>, dtype: Dtype) -> (r: TensorType)
        ensures
            r.shape@ == shape@,
            r.dtype == dtype,
    {
        TensorType { shape, dtype }
    }

    pub fn shape_of(&self) -> (r: &Vec<usize>)
        ensures
            r@ == self.shape@,
    {
        &self.shape
    }

    pub fn dtype_of(&self) -> (r: Dtype)
        ensures
            r == self.dtype,
    {
        self.dtype
    }

    /// Whether the shape is not empty and has no zero dimension.
    pub fn is_valid(&self) -> (r: bool)
        ensures
            r == self.wf(),
    {
        if self.shape.len() == 0 {
            return false;
        }
        let mut i: usize = 0;
        while i < self.shape.len()
            invariant
                i <= self.shape@.len(),
                forall|j: int| 0 <= j < i ==> self.shape@[j] >= 1,
            decreases self.shape@.len() - i,
        {
            if self.shape[i] == 0 {
                return false;
            }
            i = i + 1;
        }
        true
    }

    /// A copy with the same shape and element kind.
    pub fn copied(&self) -> (r: TensorType)
        ensures
            r@ == self@,
    {
        TensorType { shape: copy_shape(&self.shape), dtype: self.dtype }
    }

    /// Equality of shapes, entry by entry, and of element kinds.
    pub fn same(&self, other: &TensorType) -> (r: bool)
        ensures
            r == (self@ == other@),
    {
        if self.dtype != other.dtype || self.shape.len() != other.shape.len() {
            return false;
        }
        let mut i: usize = 0;
        while i < self.shape.len()
            invariant
                i <= self.shape@.len(),
                self.shape@.len() == other.shape@.len(),
                forall|j: int| 0 <= j < i ==> self.shape@[j] == other.shape@[j],
            decreases self.shape@.len() - i,
        {
            if self.shape[i] != other.shape[i] {
                return false;
            }
            i = i + 1;
        }
        assert(self.shape@ =~= other.shape@);
        true
    }
}

impl PartialEq for TensorType {
    fn eq(&self, other: &TensorType) -> (r: bool) {
        self.same(other)
    }
}

impl vstd::std_specs::cmp::PartialEqSpecImpl for TensorType {
    open spec fn obeys_eq_spec() -> bool {
        true
    }

    open spec fn eq_spec(&self, other: &TensorType) -> bool {
        self@ == other@
    }
}

/// Two tensor types are equal exactly when their shapes agree entry by entry
/// and their element kinds agree.
pub proof fn lemma_type_equality(a: TensorType, b: TensorType)
    ensures
        (a@ == b@) <==> (a.shape@.len() == b.shape@.len() && (forall|i: int|
            0 <= i < a.shape@.len() ==> a.shape@[i] == b.shape@[i]) && a.dtype == b.dtype),
{
    if a.shape@.len() == b.shape@.len() && (forall|i: int|
        0 <= i < a.shape@.len() ==> a.shape@[i] == b.shape@[i]) {
        assert(a.shape@ =~= b.shape@);
    }
}

/// A fresh vector with the same dimensions.
pub fn copy_shape(s: &Vec<usize>) -> (r: Vec<usize>)
    ensures
        r@ == s@,
{
    let mut r: Vec<usize> = Vec::new();
    let mut i: usize = 0;
    while i < s.len()
        invariant
            i <= s@.len(),
            r@ == s@.subrange(0, i as int),
        decreases s@.len() - i,
    {
        r.push(s[i]);
        i = i + 1;
        assert(r@ =~= s@.subrange(0, i as int));
    }
    assert(r@ =~= s@);
    r
}

proof fn lemma_numel_zero(s: Seq<usize>, k: int)
    requires
        0 <= k < s.len(),
        s[k] == 0,
    ensures
        numel(s) == 0,
    decreases s.len(),
{
    assert(numel(s) == numel(s.drop_last()) * (s.last() as nat));
    if k < s.len() - 1 {
        lemma_numel_zero(s.drop_last(), k);
        assert(s.drop_last()[k] == 0);
    } else {
        assert(s.last() == 0);
    }
}

proof fn lemma_numel_prefix(s: Seq<usize>, i: int)
    requires
        0 <= i <= s.len(),
        forall|j: int| 0 <= j < s.len() ==> s[j] >= 1,
    ensures
        numel(s.subrange(0, i)) <= numel(s),
    decreases s.len(),
{
    if i < s.len() {
        assert(s.drop_last().subrange(0, i) =~= s.subrange(0, i));
        lemma_numel_prefix(s.drop_last(), i);
        let p = numel(s.drop_last());
        let d = s.last() as nat;
        assert(p <= p * d) by (nonlinear_arith)
            requires
                d >= 1,
        ;
    } else {
        assert(s.subrange(0, i) =~= s);
    }
}

/// The number of elements of a shape, or `None` when it does not fit in `usize`.
pub fn element_count(s: &Vec<usize>) -> (r: Option<usize>)
    ensures
        r == (if numel(s@) <= usize::MAX {
            Some(numel(s@) as usize)
        } else {
            None::<usize>
        }),
{
    let mut k: usize = 0;
    while k < s.len()
        invariant
            k <= s@.len(),
            forall|j: int| 0 <= j < k ==> s@[j] >= 1,
        decreases s@.len() - k,
    {
        if s[k] == 0 {
            proof {
                lemma_numel_zero(s@, k as int);
            }
            return Some(0);
        }
        k = k + 1;
    }
    let mut acc: usize = 1;
    let mut i: usize = 0;
    while i < s.len()
        invariant
            i <= s@.len(),
            forall|j: int| 0 <= j < s@.len() ==> s@[j] >= 1,
            acc as nat == numel(s@.subrange(0, i as int)),
        decreases s@.len() - i,
    {
        assert(s@.subrange(0, i as int + 1).drop_last() =~= s@.subrange(0, i as int));
        let d = s[i];
        match acc.checked_mul(d) {
            Some(v) => {
                acc = v;
            },
            None => {
                proof {
                    lemma_numel_prefix(s@, i as int + 1);
                }
                return None;
            },
        }
        i = i + 1;
    }
    assert(s@.subrange(0, s@.len() as int) =~= s@);
    Some(acc)
}

} // verus!
