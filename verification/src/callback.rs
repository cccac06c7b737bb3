//! Callbacks: values that say which action is to follow once a result from
//! outside the state machine has arrived.

use std::any::Any;
use std::borrow::Cow;
use std::marker::PhantomData;
use vstd::prelude::*;

verus! {

/// An action of a type that is not known here. The state machine's own type
/// of actions is made from it.
///
/// The verifier knows nothing of what is in the box: a value of this type is
/// only carried from the function that made it to the conversion that opens
/// it.
#[verifier::external_body]
pub struct AnyAction(pub Box<dyn Any>);

/// A function that makes an action from an argument, together with the name
/// under which the function is known.
///
/// A callback that was made with [`Callback::new`] holds the function. One
/// that was read back from its serialized form holds the name only; the
/// function is then found by that name among the callbacks that the program
/// has registered.
#[derive(PartialEq, Eq, Debug)]
pub struct Callback<T, F> {
    pub(crate) fun_ptr: Option<F>,
    pub fun_name: Cow<'static, str>,
    pub(crate) _marker: PhantomData<T>,
}

/// The text of a name.
fn name_of<'a>(name: &'a Cow<'static, str>) -> (text: &'a str)
    ensures
        text@ == name@,
{
    match name {
        Cow::Borrowed(text) => text,
        Cow::Owned(text) => text.as_str(),
    }
}

impl<T, F: Clone> Clone for Callback<T, F> {
    fn clone(&self) -> (callback: Self)
        ensures
            callback.name() == self.name(),
            callback.function() is Some <==> self.function() is Some,
            self.function() is Some ==> cloned(self.function()->0, callback.function()->0),
    {
        let fun_ptr = match &self.fun_ptr {
            Some(fun) => Some(fun.clone()),
            None => None,
        };
        let fun_name = match &self.fun_name {
            Cow::Borrowed(text) => Cow::Borrowed(*text),
            Cow::Owned(text) => Cow::Owned(text.clone()),
        };
        Self { fun_ptr, fun_name, _marker: PhantomData }
    }
}

impl<T, F> Callback<T, F> {
    /// The function that the callback holds, if it holds one.
    pub open(crate) spec fn function(&self) -> Option<F> {
        self.fun_ptr
    }

    /// The name under which the callback's function is known.
    pub open(crate) spec fn name(&self) -> Seq<char> {
        self.fun_name@
    }

    /// The callback holds its function and is known under the given name.
    pub open spec fn provides(&self, name: Seq<char>) -> bool {
        self.function() is Some && self.name() == name
    }

    /// The callback of the given function, if any, and name.
    pub fn from_parts(fun_ptr: Option<F>, fun_name: Cow<'static, str>) -> (callback: Self)
        ensures
            callback.function() == fun_ptr,
            callback.name() == fun_name@,
    {
        Self { fun_ptr, fun_name, _marker: PhantomData }
    }

    /// The function that the callback holds, if any, and its name.
    pub fn into_parts(self) -> (parts: (Option<F>, Cow<'static, str>))
        ensures
            parts.0 == self.function(),
            parts.1@ == self.name(),
    {
        (self.fun_ptr, self.fun_name)
    }

    /// Whether the callback holds its function.
    pub fn has_function(&self) -> (held: bool)
        ensures
            held == (self.function() is Some),
    {
        self.fun_ptr.is_some()
    }

    /// The callback whose function is to be called for this one: this
    /// callback where it holds its function, and else the first of the
    /// registered callbacks that holds a function under this callback's name.
    /// `None` where there is no such callback.
    pub fn resolve<'a>(&'a self, registry: &'a Vec<Callback<T, F>>) -> (found: Option<
        &'a Callback<T, F>,
    >)
        ensures
            self.function() is Some ==> found == Some(self),
            self.function() is None ==> match found {
                Some(callback) => exists|i: int|
                    {
                        &&& 0 <= i < registry@.len()
                        &&& *callback == #[trigger] registry@[i]
                        &&& callback.provides(self.name())
                        &&& forall|j: int| 0 <= j < i ==> !(#[trigger] registry@[j]).provides(self.name())
                    },
                None => forall|j: int|
                    0 <= j < registry@.len() ==> !(#[trigger] registry@[j]).provides(self.name()),
            },
    {
        if self.fun_ptr.is_some() {
            return Some(self);
        }
        let wanted = name_of(&self.fun_name).to_owned();
        let mut i: usize = 0;
        while i < registry.len()
            invariant
                i <= registry@.len(),
                self.function() is None,
                wanted@ == self.name(),
                forall|j: int| 0 <= j < i ==> !(#[trigger] registry@[j]).provides(self.name()),
            decreases registry@.len() - i,
        {
            let candidate = &registry[i];
            if candidate.fun_ptr.is_some() {
                let known = name_of(&candidate.fun_name).to_owned();
                if known == wanted {
                    assert(*candidate == registry@[i as int]);
                    return Some(candidate);
                }
            }
            i = i + 1;
        }
        None
    }
}

impl<T: 'static, F: Fn(T) -> AnyAction> Callback<T, F> {
    /// The callback for the function `fun_ptr`, known as `name`.
    pub fn new(name: &'static str, fun_ptr: F) -> (callback: Self)
        ensures
            callback.function() == Some(fun_ptr),
            callback.name() == name@,
    {
        Self { fun_ptr: Some(fun_ptr), fun_name: Cow::Borrowed(name), _marker: PhantomData }
    }

    /// Calls the callback's function on `args`, and makes the state machine's
    /// action from what it returns.
    ///
    /// The callback holds its function. For one that may hold its name only,
    /// [`resolve`](Self::resolve) finds the callback to call.
    pub fn call<Action>(&self, args: T) -> (action: Action) where Action: From<AnyAction>
        requires
            self.function() is Some,
            call_requires(self.function()->0, (args,)),
        ensures
            exists|any: AnyAction|
                call_ensures(self.function()->0, (args,), any) && call_ensures(
                    Action::from,
                    (any,),
                    action,
                ),
    {
        match &self.fun_ptr {
            Some(fun) => {
                let any = fun(args);
                Action::from(any)
            },
            None => unreached(),
        }
    }
}

} // verus!
