//! Binding of caller-supplied expected values to fixed-width quote fields.

use vstd::prelude::*;

verus! {

/// What the caller expects of one bound field.
#[derive(Debug, Clone)]
pub enum ExpectedValue {
    /// Skip the check.
    Any,
    /// The field must equal these bytes, right-padded with zeros to its width.
    Value(Vec<u8>),
}

impl View for ExpectedValue {
    /// `None` stands for `Any`.
    type V = Option<Seq<u8>>;

    open spec fn view(&self) -> Option<Seq<u8>> {
        match self {
            ExpectedValue::Any => None,
            ExpectedValue::Value(v) => Some(v@),
        }
    }
}

/// Which way a binding check failed.
#[derive(Debug, Clone, Copy, PartialEq, Eq, Structural)]
pub enum BindingErrorKind {
    /// The expected value is wider than the field.
    TooLong,
    /// The regularized expected value differs from the field.
    Mismatch,
}

/// A failed binding check, naming the field and the TEE class.
#[derive(Debug)]
pub struct BindingError {
    pub kind: BindingErrorKind,
    pub field_name: String,
    pub tee_name: String,
}

/// `n` zero bytes.
pub open spec fn zeros(n: nat) -> Seq<u8> {
    Seq::new(n, |i: int| 0u8)
}

/// `v` right-padded with zeros to `width` bytes.
pub open spec fn regularized(v: Seq<u8>, width: nat) -> Seq<u8> {
    v + zeros((width - v.len()) as nat)
}

/// How checking `expected` against the field `actual` fails, if it does.
pub open spec fn binding_failure(expected: Option<Seq<u8>>, actual: Seq<u8>) -> Option<
    BindingErrorKind,
> {
    match expected {
        None => None,
        Some(v) => if v.len() > actual.len() {
            Some(BindingErrorKind::TooLong)
        } else if regularized(v, actual.len()) == actual {
            None
        } else {
            Some(BindingErrorKind::Mismatch)
        },
    }
}

/// Pads `v` with zeros to `width` bytes; `None` when `v` is wider.
pub fn regularize(v: &[u8], width: usize) -> (r: Option<Vec<u8>>)
    ensures
        v@.len() > width ==> r is None,
        v@.len() <= width ==> (r matches Some(x) && x@ == regularized(v@, width as nat)),
{
    let n: usize = v.len();
    if n > width {
        return None;
    }
    let mut r: Vec<u8> = Vec::with_capacity(width);
    let mut i: usize = 0;
    while i < n
        invariant
            n == v@.len(),
            i <= n,
            r@ == v@.subrange(0, i as int),
        decreases n - i,
    {
        r.push(v[i]);
        i = i + 1;
        assert(r@ =~= v@.subrange(0, i as int));
    }
    assert(v@.subrange(0, n as int) =~= v@);
    while i < width
        invariant
            n <= i <= width,
            r@ == v@ + zeros((i - n) as nat),
        decreases width - i,
    {
        r.push(0u8);
        i = i + 1;
        assert(r@ =~= v@ + zeros((i - n) as nat));
    }
    Some(r)
}

/// Compares two byte slices.
pub fn bytes_equal(a: &[u8], b: &[u8]) -> (r: bool)
    ensures
        r == (a@ == b@),
{
    if a.len() != b.len() {
        return false;
    }
    let mut i: usize = 0;
    while i < a.len()
        invariant
            a@.len() == b@.len(),
            i <= a@.len(),
            forall|j: int| 0 <= j < i ==> a@[j] == b@[j],
        decreases a@.len() - i,
    {
        if a[i] != b[i] {
            return false;
        }
        i = i + 1;
    }
    assert(a@ =~= b@);
    true
}

/// Checks the field `actual` against `expected`. `Any` always passes; a
/// value is regularized to the field's width and then compared exactly.
pub fn check_binding(expected: &ExpectedValue, actual: &[u8], field_name: &str, tee_name: &str) -> (r:
    Result<(), BindingError>)
    ensures
        r is Ok <==> binding_failure(expected@, actual@) is None,
        r matches Err(e) ==> {
            &&& binding_failure(expected@, actual@) == Some(e.kind)
            &&& e.field_name@ == field_name@
            &&& e.tee_name@ == tee_name@
        },
{
    match expected {
        ExpectedValue::Any => Ok(()),
        ExpectedValue::Value(v) => {
            match regularize(v.as_slice(), actual.len()) {
                None => Err(
                    BindingError {
                        kind: BindingErrorKind::TooLong,
                        field_name: field_name.to_string(),
                        tee_name: tee_name.to_string(),
                    },
                ),
                Some(x) => {
                    if bytes_equal(x.as_slice(), actual) {
                        Ok(())
                    } else {
                        Err(
                            BindingError {
                                kind: BindingErrorKind::Mismatch,
                                field_name: field_name.to_string(),
                                tee_name: tee_name.to_string(),
                            },
                        )
                    }
                },
            }
        },
    }
}

/// On fields of equal width, a value binds exactly when it equals the field,
/// and `Any` binds to every field.
pub proof fn lemma_binding_exact(a: Seq<u8>, b: Seq<u8>)
    requires
        a.len() == b.len(),
    ensures
        binding_failure(Some(a), b) is None <==> a == b,
        binding_failure(None, b) is None,
{
    assert(zeros(0) =~= Seq::<u8>::empty());
    assert(a + zeros(0) =~= a);
}

/// A shorter expected value binds exactly when the field is that value
/// followed by zeros; a longer one is refused before any comparison.
pub proof fn lemma_binding_regularized(v: Seq<u8>, actual: Seq<u8>)
    ensures
        v.len() <= actual.len() ==> (binding_failure(Some(v), actual) is None <==> actual == v
            + zeros((actual.len() - v.len()) as nat)),
        v.len() > actual.len() ==> binding_failure(Some(v), actual) == Some(
            BindingErrorKind::TooLong,
        ),
{
}

} // verus!
