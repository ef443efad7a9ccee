//! The custom-component registry: an immutable, reference-counted mapping
//! from component name to rendering function, with last-write-wins
//! construction and identity-based equality.

use std::rc::Rc;

use vstd::prelude::*;

use crate::element::Element;
use crate::props::{ComponentCreationError, MdComponentProps};

verus! {

/// The function registered last under `name`, if any.
pub open spec fn spec_lookup<F>(s: Seq<(String, F)>, name: Seq<char>) -> Option<F>
    decreases s.len(),
{
    if s.len() == 0 {
        Option::None
    } else if s.last().0@ == name {
        Option::Some(s.last().1)
    } else {
        spec_lookup(s.drop_last(), name)
    }
}

/// Registry of custom components. A component is any function from
/// `MdComponentProps` to a view, or a creation error. The entry list is
/// shared by reference count, immutable once built; two registries are the
/// same only when they share one allocation, never by comparing entries.
#[derive(Debug)]
pub struct CustomComponents<F>(Rc<Vec<(String, F)>>);

/// Relies on std's `Rc::ptr_eq`: it reports whether two handles share one
/// allocation, and handles to one allocation hold one value. Which handles
/// share an allocation is invisible to the verifier, so nothing more is
/// assumed of the result.
#[verifier::external_body]
pub(crate) fn rc_ptr_eq<T: ?Sized>(a: &Rc<T>, b: &Rc<T>) -> (r: bool)
    ensures
        r ==> a == b,
{
    Rc::ptr_eq(a, b)
}

impl<F> CustomComponents<F> {
    /// The registered entries, in registration order.
    pub closed spec fn entries(&self) -> Seq<(String, F)> {
        self.0@
    }

    /// The component registered under `name`: with duplicate names, the last
    /// write wins.
    pub open spec fn spec_get(&self, name: Seq<char>) -> Option<F> {
        spec_lookup(self.entries(), name)
    }

    /// Registers the given components, in order.
    pub fn new(content: Vec<(String, F)>) -> (r: CustomComponents<F>)
        ensures
            r.entries() == content@,
    {
        CustomComponents(Rc::new(content))
    }

    /// Identity equality: true only for two handles to one shared registry.
    /// Two registries built separately compare unequal even with identical
    /// entries, so a host can skip re-rendering exactly when the same
    /// registry instance is reused.
    pub fn ptr_eq(&self, other: &CustomComponents<F>) -> (r: bool)
        ensures
            r ==> self.entries() == other.entries(),
    {
        rc_ptr_eq(&self.0, &other.0)
    }

    /// Looks up `name` without allocating. With duplicate registrations the
    /// most recent one is returned.
    pub fn lookup(&self, name: &str) -> (r: Option<&F>)
        ensures
            match r {
                Some(f) => self.spec_get(name@) == Option::Some(*f),
                None => self.spec_get(name@) is None,
            },
    {
        let n = self.0.len();
        proof {
            assert(self.0@.subrange(0, n as int) =~= self.0@);
        }
        let mut i: usize = n;
        while i > 0
            invariant
                0 <= i <= n,
                n == self.0@.len(),
                spec_lookup(self.0@, name@) == spec_lookup(
                    self.0@.subrange(0, i as int),
                    name@,
                ),
            decreases i,
        {
            proof {
                assert(self.0@.subrange(0, i as int).drop_last() =~= self.0@.subrange(
                    0,
                    i - 1,
                ));
                assert(self.0@.subrange(0, i as int).last() == self.0@[i - 1]);
            }
            if crate::parse::str_eq(self.0[i - 1].0.as_str(), name) {
                return Some(&self.0[i - 1].1);
            }
            i -= 1;
        }
        None
    }

    /// Whether a component is registered under `name`.
    pub fn contains(&self, name: &str) -> (r: bool)
        ensures
            r == (self.spec_get(name@) is Some),
    {
        self.lookup(name).is_some()
    }
}

impl<F> Default for CustomComponents<F> {
    /// The empty registry.
    fn default() -> (r: CustomComponents<F>)
        ensures
            r.entries() == Seq::<(String, F)>::empty(),
    {
        CustomComponents(Rc::new(Vec::new()))
    }
}

impl<F> Clone for CustomComponents<F> {
    /// Shares the same registry: the clone holds the same entries and
    /// compares identity-equal to the original.
    fn clone(&self) -> (r: Self)
        ensures
            r.entries() == self.entries(),
    {
        CustomComponents(rc_clone(&self.0))
    }
}

/// Relies on std's `Rc::clone`: a new handle to the same allocation, holding
/// the same value.
#[verifier::external_body]
fn rc_clone<T: ?Sized>(a: &Rc<T>) -> (r: Rc<T>)
    ensures
        r == a,
{
    Rc::clone(a)
}

/// The custom-element dispatch step: looks up `name`, and either fails the
/// whole render with `UnknownComponent` or invokes the registered function
/// on the occurrence's props, propagating its result unchanged.
pub fn dispatch_component<F: Fn(MdComponentProps) -> Result<Element, ComponentCreationError>>(
    components: &CustomComponents<F>,
    name: &str,
    props: MdComponentProps,
) -> (r: Result<Element, ComponentCreationError>)
    requires
        components.spec_get(name@) matches Option::Some(f) ==> call_requires(f, (props,)),
    ensures
        components.spec_get(name@) is None ==> (r matches Err(e) && e matches
            ComponentCreationError::UnknownComponent(m) && m@ == name@),
        components.spec_get(name@) matches Option::Some(f) ==> call_ensures(f, (props,), r),
{
    match components.lookup(name) {
        None => Err(ComponentCreationError::UnknownComponent(name.to_owned())),
        Some(f) => f(props),
    }
}

} // verus!
