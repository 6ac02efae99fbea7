//! The hidden capability that makes boxed interface values comparable, and
//! the comparison routines that the generated declarations call.

use vstd::prelude::*;
use vstd::std_specs::cmp::PartialEqSpec;
use vstd::std_specs::cmp::PartialEqSpecImpl;

verus! {

/// A read-only view of some value whose concrete type has been erased.
///
/// The view borrows the value; it is never a copy of it. Its field is a
/// `&dyn Any`, a type that the verifier cannot look into: the struct is
/// opaque to every proof, and only `erase_ref` makes one and only
/// `downcast` reads one. What a proof knows of a view is of which value it
/// is a view: `is_view_of`.
#[verifier::external_body]
pub struct ErasedRef<'a> {
    target: &'a dyn core::any::Any,
}

/// Whether `erased` is a view of `value`: a view that erasing `value`, at
/// the type `T`, yields.
///
/// The relation is the verifier's own account of what a call of the erasing
/// coercion may return. The one thing claimed of it stands in the contract
/// of `downcast`.
pub closed spec fn is_view_of<T: 'static>(erased: ErasedRef<'_>, value: &T) -> bool {
    call_ensures(erase_ref::<T>, (value,), erased)
}

/// Whether `erased` is a view of at most one value of the type `T`. It holds
/// of every view; a proof learns it of a view once that view has been
/// recovered.
pub open spec fn views_one_value<T: 'static>(erased: ErasedRef<'_>) -> bool {
    forall|first: &T, second: &T|
        #![trigger is_view_of(erased, first), is_view_of(erased, second)]
        is_view_of(erased, first) && is_view_of(erased, second) ==> first == second
}

/// The unsizing coercion from `&T` to `&dyn Any`, kept in an `ErasedRef`.
/// No contract is written here: that the result is a view of `value` is
/// what `is_view_of` means.
#[verifier::external_body]
fn erase_ref<'a, T: 'static>(value: &'a T) -> (erased: ErasedRef<'a>) {
    ErasedRef { target: value }
}

/// `<dyn Any>::downcast_ref::<T>`: some reference to the value behind the
/// view if that value is of type `T`, and `None` if it is not. So the
/// result is `Some(value)` for the value of type `T` that the view is a
/// view of, and for no other; and it is `None` where the view is a view of
/// no value of type `T`.
#[verifier::external_body]
fn downcast<'a, T: 'static>(erased: ErasedRef<'a>) -> (found: Option<&'a T>)
    ensures
        forall|value: &T| #[trigger] is_view_of(erased, value) <==> found == Some(value),
{
    erased.target.downcast_ref::<T>()
}

/// The capability that an interface gains so that its boxed values can be
/// compared: a type-erasure accessor and a comparison against an erased
/// view.
///
/// An implementor says in two relations what its operations may give:
/// which views `as_any` may yield of the receiver, and which answers
/// `box_eq` may give on a view. One that says nothing leaves both open. A
/// shim says `is_view_of` of the first and `is_shim_answer` of the second,
/// which is what `erase` and `equals_erased` promise.
pub trait DynPartialEq {
    /// Whether `as_any` may yield `erased` as a view of the receiver.
    open spec fn is_view(&self, erased: ErasedRef<'_>) -> bool {
        true
    }

    /// Whether `box_eq` may answer `equal` when it is asked to compare the
    /// receiver with the value behind `other`.
    open spec fn is_answer(&self, other: ErasedRef<'_>, equal: bool) -> bool {
        true
    }

    /// Reports whether the value behind `other` equals the receiver. It must
    /// answer `false` whenever `other` does not view a value of the
    /// receiver's own concrete type.
    fn box_eq(&self, other: ErasedRef<'_>) -> (equal: bool)
        ensures
            self.is_answer(other, equal),
    ;

    /// Yields a type-erased view of the receiver.
    fn as_any(&self) -> (erased: ErasedRef<'_>)
        ensures
            self.is_view(erased),
    ;
}

/// Equality of two boxed interface values: `equal` is an answer of the left
/// operand's comparison against a view of the right operand.
pub open spec fn boxed_eq_spec<I: DynPartialEq + ?Sized>(
    left: &Box<I>,
    right: &Box<I>,
    equal: bool,
) -> bool {
    exists|view: ErasedRef<'_>| right.is_view(view) && #[trigger] left.is_answer(view, equal)
}

/// Compares an owned box of an interface with another owned box of it.
pub fn boxed_eq<I: DynPartialEq + ?Sized>(left: &Box<I>, right: &Box<I>) -> (equal: bool)
    ensures
        boxed_eq_spec(left, right, equal),
{
    let view = right.as_any();
    let equal = left.box_eq(view);
    assert(right.is_view(view) && left.is_answer(view, equal));
    equal
}

/// The same equality, with the right operand behind one more reference.
pub open spec fn boxed_eq_ref_spec<I: DynPartialEq + ?Sized>(
    left: &Box<I>,
    right: &&Box<I>,
    equal: bool,
) -> bool {
    exists|view: ErasedRef<'_>| (*right).is_view(view) && #[trigger] left.is_answer(view, equal)
}

/// Compares an owned box of an interface with a borrowed reference to
/// another owned box of it.
pub fn boxed_eq_ref<I: DynPartialEq + ?Sized>(left: &Box<I>, right: &&Box<I>) -> (equal: bool)
    ensures
        boxed_eq_ref_spec(left, right, equal),
{
    let view = right.as_any();
    let equal = left.box_eq(view);
    assert((*right).is_view(view) && left.is_answer(view, equal));
    equal
}

/// The value/value comparison and the value/reference comparison promise
/// the same of every pair of boxed values: what the one may answer on a
/// pair, the other may answer on it.
pub proof fn lemma_overloads_agree<I: DynPartialEq + ?Sized>(
    left: &Box<I>,
    right: &Box<I>,
    equal: bool,
)
    ensures
        boxed_eq_ref_spec(left, &right, equal) == boxed_eq_spec(left, right, equal),
{
}

/// Whether the left operand answers alike on all views of the right
/// operand, so that comparing the pair has one result.
pub open spec fn answers_alike<I: DynPartialEq + ?Sized>(left: &Box<I>, right: &Box<I>) -> bool {
    forall|first: ErasedRef<'_>, second: ErasedRef<'_>, one: bool, other: bool|
        #![trigger left.is_answer(first, one), left.is_answer(second, other)]
        right.is_view(first) && right.is_view(second) && left.is_answer(first, one)
            && left.is_answer(second, other) ==> one == other
}

/// The value/value comparison and the value/reference comparison return the
/// same on a pair whose left operand answers alike on all views of the
/// right one.
pub proof fn lemma_overloads_return_the_same<I: DynPartialEq + ?Sized>(
    left: &Box<I>,
    right: &Box<I>,
    by_value: bool,
    by_reference: bool,
)
    requires
        answers_alike(left, right),
        boxed_eq_spec(left, right, by_value),
        boxed_eq_ref_spec(left, &right, by_reference),
    ensures
        by_value == by_reference,
{
}

/// What a shim answers once recovery has been attempted: `false` when the
/// view was of another concrete type, the native equality otherwise.
pub open spec fn equals_recovered_spec<T: PartialEq>(value: &T, recovered: Option<&T>) -> bool {
    match recovered {
        Some(other) => value.eq_spec(other),
        None => false,
    }
}

/// Decides a shim's comparison from the outcome of the recovery.
pub fn equals_recovered<T: PartialEq>(value: &T, recovered: Option<&T>) -> (equal: bool)
    ensures
        T::obeys_eq_spec() ==> equal == equals_recovered_spec(value, recovered),
        recovered is None ==> !equal,
{
    match recovered {
        Some(other) => value == other,
        None => false,
    }
}

/// A view that is not of the shim's concrete type compares unequal,
/// whatever the two values hold.
pub proof fn lemma_unrecovered_is_unequal<T: PartialEq>(value: &T)
    ensures
        !equals_recovered_spec(value, None),
{
}

/// Against a recovered value, the comparison is the concrete type's own
/// native equality.
pub proof fn lemma_recovered_delegates<T: PartialEq>(value: &T, other: &T)
    ensures
        equals_recovered_spec(value, Some(other)) == value.eq_spec(other),
{
}

/// A value compares equal to itself once it has been recovered, provided
/// that its native equality holds of it and itself.
pub proof fn lemma_recovered_self_is_equal<T: PartialEq>(value: &T)
    requires
        value.eq_spec(value),
    ensures
        equals_recovered_spec(value, Some(value)),
{
}

/// What the erased comparison of a shim answers: whether `other` is a view
/// of some value of the shim's own concrete type that `value` equals
/// natively. A view of a value of another type is a view of no `T`, so the
/// answer is then `false`.
pub open spec fn equals_erased_spec<T: PartialEq + 'static>(
    value: &T,
    other: ErasedRef<'_>,
) -> bool {
    exists|same: &T| #[trigger] is_view_of(other, same) && value.eq_spec(same)
}

/// What the erased comparison of a shim promises of its answer `equal`:
/// it is `false` where `other` is a view of no value of the shim's type;
/// where the type's native equality is the one that the verifier knows, it
/// is `equals_erased_spec`; and `other` is a view of at most one value of
/// the type.
pub open spec fn is_shim_answer<T: PartialEq + 'static>(
    value: &T,
    other: ErasedRef<'_>,
    equal: bool,
) -> bool {
    &&& T::obeys_eq_spec() ==> equal == equals_erased_spec(value, other)
    &&& (forall|same: &T| !is_view_of(other, same)) ==> !equal
    &&& views_one_value::<T>(other)
}

/// The erasure accessor of a shim: a view of `value` itself, not of a copy
/// of it.
pub fn erase<T: 'static>(value: &T) -> (erased: ErasedRef<'_>)
    ensures
        is_view_of(erased, value),
{
    erase_ref(value)
}

/// Recovers the value behind a view as a `T`: some reference to the value
/// that `erased` is a view of, if that value is of type `T`, and `None` if
/// `erased` is a view of no value of type `T`.
pub fn recover<'a, T: 'static>(erased: ErasedRef<'a>) -> (found: Option<&'a T>)
    ensures
        forall|value: &T| #[trigger] is_view_of(erased, value) <==> found == Some(value),
{
    downcast::<T>(erased)
}

/// The erased comparison of a shim: recovers `other` as a `T` and, only on
/// success, compares natively. A failed recovery is the answer `false`,
/// whatever the native equality of `T` is like.
pub fn equals_erased<T: PartialEq + 'static>(value: &T, other: ErasedRef<'_>) -> (equal: bool)
    ensures
        T::obeys_eq_spec() ==> equal == equals_erased_spec(value, other),
        (forall|same: &T| !is_view_of(other, same)) ==> !equal,
        views_one_value::<T>(other),
        is_shim_answer(value, other, equal),
{
    let recovered = recover::<T>(other);
    let equal = equals_recovered(value, recovered);
    proof {
        if T::obeys_eq_spec() {
            lemma_erased_is_recovered(value, other, recovered);
        }
        if let Some(found) = recovered {
            assert(is_view_of(other, found));
        }
    }
    equal
}

/// Once the outcome of the recovery is known, the erased comparison is the
/// comparison against that outcome.
proof fn lemma_erased_is_recovered<T: PartialEq + 'static>(
    value: &T,
    other: ErasedRef<'_>,
    recovered: Option<&T>,
)
    requires
        forall|same: &T| #[trigger] is_view_of(other, same) <==> recovered == Some(same),
    ensures
        equals_erased_spec(value, other) == equals_recovered_spec(value, recovered),
{
    match recovered {
        Some(found) => {
            assert(is_view_of(other, found));
        },
        None => {},
    }
}

/// A view of a value of the shim's own concrete type compares as the two
/// values do natively.
pub proof fn lemma_same_type_delegates<T: PartialEq + 'static>(
    value: &T,
    other: &T,
    view: ErasedRef<'_>,
)
    requires
        is_view_of(view, other),
        views_one_value::<T>(view),
    ensures
        equals_erased_spec(value, view) == value.eq_spec(other),
{
}

/// Two values of one concrete type, compared as their shims compare them
/// when boxed, compare as they do natively: the answer of the left one's
/// comparison on a view of the right one is their native equality.
pub proof fn lemma_shims_compare_natively<T: PartialEq + 'static>(
    left: &T,
    right: &T,
    view: ErasedRef<'_>,
    equal: bool,
)
    requires
        T::obeys_eq_spec(),
        is_view_of(view, right),
        is_shim_answer(left, view, equal),
    ensures
        equal == left.eq_spec(right),
{
    lemma_same_type_delegates(left, right, view);
}

/// A view of no value of the shim's concrete type compares unequal,
/// whatever the two values hold.
pub proof fn lemma_other_type_is_unequal<T: PartialEq + 'static>(value: &T, view: ErasedRef<'_>)
    requires
        forall|same: &T| !is_view_of(view, same),
    ensures
        !equals_erased_spec(value, view),
{
}

/// A value compares equal to its own view, provided that its native
/// equality holds of it and itself.
pub proof fn lemma_own_view_is_equal<T: PartialEq + 'static>(value: &T, view: ErasedRef<'_>)
    requires
        is_view_of(view, value),
        value.eq_spec(value),
    ensures
        equals_erased_spec(value, view),
{
}

/// Whether the concrete type `T` carries the shim: of the views that its
/// accessor may yield and of the answers that its comparison may give, its
/// implementation of the capability says what `erase` and `equals_erased`
/// promise.
pub open spec fn carries_shim<T: DynPartialEq + PartialEq + 'static>() -> bool {
    &&& forall|value: &T, view: ErasedRef<'_>| #[trigger]
        value.is_view(view) ==> is_view_of(view, value)
    &&& forall|value: &T, view: ErasedRef<'_>, equal: bool| #[trigger]
        value.is_answer(view, equal) ==> is_shim_answer(value, view, equal)
}

/// Two boxed values of one concrete type that carries the shim compare as
/// the values in them do natively.
pub proof fn lemma_boxed_compare_natively<T: DynPartialEq + PartialEq + 'static>(
    left: &Box<T>,
    right: &Box<T>,
    equal: bool,
)
    requires
        carries_shim::<T>(),
        T::obeys_eq_spec(),
        boxed_eq_spec(left, right, equal),
    ensures
        equal == (**left).eq_spec(&**right),
{
    let view = choose|view: ErasedRef<'_>|
        right.is_view(view) && #[trigger] left.is_answer(view, equal);
    lemma_shims_compare_natively(&**left, &**right, view, equal);
}

/// A boxed value of a concrete type that carries the shim equals itself,
/// provided that the native equality holds of the value in it and itself.
pub proof fn lemma_boxed_equals_itself<T: DynPartialEq + PartialEq + 'static>(
    boxed: &Box<T>,
    equal: bool,
)
    requires
        carries_shim::<T>(),
        T::obeys_eq_spec(),
        (**boxed).eq_spec(&**boxed),
        boxed_eq_spec(boxed, boxed, equal),
    ensures
        equal,
{
    lemma_boxed_compare_natively(boxed, boxed, equal);
}

/// On two boxed values of one concrete type that carries the shim, the
/// value/value comparison and the value/reference comparison return the
/// same.
pub proof fn lemma_boxed_overloads_return_the_same<T: DynPartialEq + PartialEq + 'static>(
    left: &Box<T>,
    right: &Box<T>,
    by_value: bool,
    by_reference: bool,
)
    requires
        carries_shim::<T>(),
        T::obeys_eq_spec(),
        boxed_eq_spec(left, right, by_value),
        boxed_eq_ref_spec(left, &right, by_reference),
    ensures
        by_value == by_reference,
{
    lemma_boxed_compare_natively(left, right, by_value);
    lemma_overloads_agree(left, right, by_reference);
    lemma_boxed_compare_natively(left, right, by_reference);
}

/// A value that carries the shim by its type: whatever `T` is, a
/// `Shim<T>` has the hidden capability, written once here in place of a
/// generated shim for each concrete type. Its native equality is that of
/// the value in it.
#[derive(Debug)]
pub struct Shim<T>(pub T);

impl<T: PartialEq> PartialEq for Shim<T> {
    fn eq(&self, other: &Self) -> (equal: bool) {
        self.0 == other.0
    }
}

impl<T: PartialEq> PartialEqSpecImpl for Shim<T> {
    open spec fn obeys_eq_spec() -> bool {
        T::obeys_eq_spec()
    }

    open spec fn eq_spec(&self, other: &Self) -> bool {
        self.0.eq_spec(&other.0)
    }
}

impl<T: PartialEq + 'static> DynPartialEq for Shim<T> {
    open spec fn is_view(&self, erased: ErasedRef<'_>) -> bool {
        is_view_of(erased, self)
    }

    open spec fn is_answer(&self, other: ErasedRef<'_>, equal: bool) -> bool {
        is_shim_answer(self, other, equal)
    }

    fn box_eq(&self, other: ErasedRef<'_>) -> (equal: bool) {
        equals_erased(self, other)
    }

    fn as_any(&self) -> (erased: ErasedRef<'_>) {
        erase(self)
    }
}

/// `Shim<T>` carries the shim.
pub proof fn lemma_shim_carries_shim<T: PartialEq + 'static>()
    ensures
        carries_shim::<Shim<T>>(),
{
}

} // verus!
