//! Actors: values that live with a worker and change from call to call.
//!
//! A worker keeps the states of all its actors in one type `S`. A method takes the state of its
//! actor and hands it back as the call leaves it.
use crate::codec::{self, decode, encode};
use crate::error::{ErrorView, MiniRayError};
use crate::runtime::{self, expect_arg_count, Outcome};
use crate::string_table::{share, StringTable};
use crate::text;
use serde::de::DeserializeOwned;
use serde::Serialize;
use std::sync::Arc;
use vstd::prelude::*;
use vstd::string::StringExecFns;

verus! {

/// What makes the state of a new actor.
pub trait ActorConstructor<S>: Send + Sync {
    /// Whether the constructor may be called with these arguments.
    spec fn accepts(&self, args: Vec<Vec<u8>>) -> bool;

    /// Whether the constructor may return this for these arguments.
    spec fn allows(&self, args: Vec<Vec<u8>>, r: Result<S, MiniRayError>) -> bool;

    /// Makes the state.
    fn run(&self, args: Vec<Vec<u8>>) -> (r: Result<S, MiniRayError>)
        requires
            self.accepts(args),
        ensures
            self.allows(args, r),
    ;
}

impl<S, F: Fn(Vec<Vec<u8>>) -> Result<S, MiniRayError> + Send + Sync> ActorConstructor<S> for F {
    open spec fn accepts(&self, args: Vec<Vec<u8>>) -> bool {
        call_requires(*self, (args,))
    }

    open spec fn allows(&self, args: Vec<Vec<u8>>, r: Result<S, MiniRayError>) -> bool {
        call_ensures(*self, (args,), r)
    }

    fn run(&self, args: Vec<Vec<u8>>) -> (r: Result<S, MiniRayError>) {
        self(args)
    }
}

/// What runs a call of an actor: a function from the actor's state and the arguments to the state
/// that the call leaves and its outcome.
pub trait ActorMethod<S>: Send + Sync {
    /// Whether the method may be called on this state with these arguments.
    spec fn accepts(&self, state: S, args: Vec<Vec<u8>>) -> bool;

    /// Whether the method may leave and return this.
    spec fn allows(&self, state: S, args: Vec<Vec<u8>>, r: (S, Outcome)) -> bool;

    /// Runs the call.
    fn run(&self, state: S, args: Vec<Vec<u8>>) -> (r: (S, Outcome))
        requires
            self.accepts(state, args),
        ensures
            self.allows(state, args, r),
    ;
}

impl<S, F: Fn(S, Vec<Vec<u8>>) -> (S, Outcome) + Send + Sync> ActorMethod<S> for F {
    open spec fn accepts(&self, state: S, args: Vec<Vec<u8>>) -> bool {
        call_requires(*self, (state, args))
    }

    open spec fn allows(&self, state: S, args: Vec<Vec<u8>>, r: (S, Outcome)) -> bool {
        call_ensures(*self, (state, args), r)
    }

    fn run(&self, state: S, args: Vec<Vec<u8>>) -> (r: (S, Outcome)) {
        self(state, args)
    }
}

/// What a constructor without arguments may return.
pub open spec fn nullary_construction<S, F: Fn() -> S>(
    f: &F,
    args: Seq<Vec<u8>>,
    r: Result<S, MiniRayError>,
) -> bool {
    if args.len() != 0 {
        r matches Err(e) && e@ == runtime::wrong_arg_count(0, args.len())
    } else {
        r matches Ok(state) && call_ensures(*f, (), state)
    }
}

/// What a constructor with one argument may return.
pub open spec fn unary_construction<S, F: Fn(Arg) -> S, Arg: DeserializeOwned>(
    f: &F,
    args: Seq<Vec<u8>>,
    r: Result<S, MiniRayError>,
) -> bool {
    if args.len() != 1 {
        r matches Err(e) && e@ == runtime::wrong_arg_count(1, args.len())
    } else {
        exists|arg: Result<Arg, MiniRayError>|
            {
                &&& #[trigger] codec::may_decode(args[0]@, arg)
                &&& match arg {
                    Err(e) => r == Err::<S, MiniRayError>(e),
                    Ok(arg) => r matches Ok(state) && call_ensures(*f, (arg,), state),
                }
            }
    }
}

/// The error for a call of a method on an actor of another type.
pub open spec fn state_mismatch(actor_type: Seq<char>) -> ErrorView {
    ErrorView::TaskFailed("actor state type mismatch for "@ + actor_type)
}

/// What a method with one argument may leave and return. Where the state is of another type, or the
/// argument cannot be decoded, the method itself does not run.
pub open spec fn unary_call<
    S,
    U: Fn(S) -> Result<Actor, S>,
    P: Fn(Actor) -> S,
    F: Fn(Actor, Arg) -> (Actor, Out),
    Actor,
    Arg: DeserializeOwned,
    Out: Serialize,
>(
    unpack: &U,
    pack: &P,
    f: &F,
    actor_type: Seq<char>,
    state: S,
    args: Seq<Vec<u8>>,
    r: (S, Outcome),
) -> bool {
    if args.len() != 1 {
        r.0 == state && (r.1 matches Err(e) && e@ == runtime::wrong_arg_count(1, args.len()))
    } else {
        exists|unpacked: Result<Actor, S>|
            {
                &&& #[trigger] call_ensures(*unpack, (state,), unpacked)
                &&& match unpacked {
                    Err(kept) => r.0 == kept && (r.1 matches Err(e) && e@ == state_mismatch(
                        actor_type,
                    )),
                    Ok(actor) => exists|arg: Result<Arg, MiniRayError>|
                        {
                            &&& #[trigger] codec::may_decode(args[0]@, arg)
                            &&& match arg {
                                Err(e) => call_ensures(*pack, (actor,), r.0) && r.1 == Err::<
                                    Vec<u8>,
                                    MiniRayError,
                                >(e),
                                Ok(arg) => exists|left: (Actor, Out)|
                                    {
                                        &&& #[trigger] call_ensures(*f, (actor, arg), left)
                                        &&& call_ensures(*pack, (left.0,), r.0)
                                        &&& codec::may_encode(left.1, r.1)
                                    },
                            }
                        },
                }
            }
    }
}

/// A constructor with one argument refuses any other number of arguments, fails with a decoding
/// error where its argument cannot be decoded, and otherwise makes the state from the decoded
/// argument.
pub proof fn unary_constructors_decode<S, F: Fn(Arg) -> S, Arg: DeserializeOwned>(
    f: &F,
    args: Seq<Vec<u8>>,
    r: Result<S, MiniRayError>,
)
    requires
        unary_construction::<S, F, Arg>(f, args, r),
    ensures
        args.len() != 1 ==> (r matches Err(e) && e is TaskFailed),
        args.len() == 1 ==> (r matches Err(e) ==> e is Decode),
        args.len() == 1 && runtime::undecodable::<Arg>(args[0]@) ==> (r matches Err(e)
            && e is Decode),
{
    if args.len() == 1 {
        if let Err(e) = r {
            codec::failures_to_decode_are_decoding_errors::<Arg>(args[0]@, e);
        }
    }
}

/// A method with one argument refuses any other number of arguments and actors of another type,
/// fails with a decoding error where its argument cannot be decoded, and otherwise can only fail in
/// the encoding of its result.
pub proof fn unary_methods_decode_and_encode<
    S,
    U: Fn(S) -> Result<Actor, S>,
    P: Fn(Actor) -> S,
    F: Fn(Actor, Arg) -> (Actor, Out),
    Actor,
    Arg: DeserializeOwned,
    Out: Serialize,
>(
    unpack: &U,
    pack: &P,
    f: &F,
    actor_type: Seq<char>,
    state: S,
    args: Seq<Vec<u8>>,
    r: (S, Outcome),
)
    requires
        unary_call::<S, U, P, F, Actor, Arg, Out>(unpack, pack, f, actor_type, state, args, r),
    ensures
        args.len() != 1 ==> r.0 == state && (r.1 matches Err(e) && e is TaskFailed),
        args.len() == 1 && (forall|u: Result<Actor, S>| #[trigger]
            call_ensures(*unpack, (state,), u) ==> u is Ok) ==> {
            &&& r.1 matches Err(e) ==> e is Decode || e is Encode
            &&& runtime::undecodable::<Arg>(args[0]@) ==> (r.1 matches Err(e) && e is Decode)
        },
        args.len() == 1 && (forall|u: Result<Actor, S>| #[trigger]
            call_ensures(*unpack, (state,), u) ==> u is Err) ==> (r.1 matches Err(e)
            && e is TaskFailed),
{
    if args.len() == 1 && (forall|u: Result<Actor, S>| #[trigger]
        call_ensures(*unpack, (state,), u) ==> u is Ok) {
        assert forall|e: MiniRayError| #[trigger]
            codec::may_decode::<Arg>(args[0]@, Err(e)) implies e is Decode by {
            codec::failures_to_decode_are_decoding_errors::<Arg>(args[0]@, e);
        }
        assert forall|out: Out, e: MiniRayError| #[trigger]
            codec::may_encode(out, Err(e)) implies e is Encode by {
            codec::failures_to_encode_are_encoding_errors(out, e);
        }
    }
}

#[verifier::reject_recursive_types(S)]
struct MethodEntry<S> {
    method: Arc<Box<dyn ActorMethod<S>>>,
    actor_type: String,
    method_id: String,
}

impl<S> MethodEntry<S> {
    fn share_method(&self) -> (copy: Self)
        ensures
            copy == *self,
    {
        MethodEntry {
            method: share(&self.method),
            actor_type: self.actor_type.clone(),
            method_id: self.method_id.clone(),
        }
    }
}

/// The actor types that a worker knows: their constructors and their methods, by name.
#[verifier::reject_recursive_types(S)]
pub struct ActorRegistry<S> {
    constructors: StringTable<Arc<Box<dyn ActorConstructor<S>>>>,
    methods: Vec<MethodEntry<S>>,
}

/// The error for an actor type that has a constructor already.
pub open spec fn constructor_exists(actor_type: Seq<char>) -> ErrorView {
    ErrorView::TaskFailed("actor constructor "@ + actor_type + " is already registered"@)
}

/// The error for an actor type without a constructor.
pub open spec fn unknown_constructor(actor_type: Seq<char>) -> ErrorView {
    ErrorView::TaskFailed("unknown actor constructor "@ + actor_type)
}

/// The error for a method name that is taken.
pub open spec fn method_exists(actor_type: Seq<char>, method_id: Seq<char>) -> ErrorView {
    ErrorView::TaskFailed(
        "actor method "@ + actor_type + "."@ + method_id + " is already registered"@,
    )
}

/// The error for a method that is not registered.
pub open spec fn unknown_method(actor_type: Seq<char>, method_id: Seq<char>) -> ErrorView {
    ErrorView::TaskFailed("unknown actor method "@ + actor_type + "."@ + method_id)
}

spec fn names<S>(
    entries: Seq<MethodEntry<S>>,
    i: int,
    actor_type: Seq<char>,
    method_id: Seq<char>,
) -> bool {
    0 <= i < entries.len() && entries[i].actor_type@ == actor_type && entries[i].method_id@
        == method_id
}

spec fn named_methods<S>(entries: Seq<MethodEntry<S>>) -> Set<(Seq<char>, Seq<char>)> {
    Set::new(|key: (Seq<char>, Seq<char>)| exists|i: int| names(entries, i, key.0, key.1))
}

spec fn method_allows<S>(
    entries: Seq<MethodEntry<S>>,
    actor_type: Seq<char>,
    method_id: Seq<char>,
    state: S,
    args: Vec<Vec<u8>>,
    r: (S, Outcome),
) -> bool {
    exists|i: int|
        #[trigger] names(entries, i, actor_type, method_id) && entries[i].method.allows(
            state,
            args,
            r,
        )
}

impl<S> ActorRegistry<S> {
    /// Every registered constructor and method can be called with any arguments, and no method is
    /// registered twice.
    pub closed spec fn wf(&self) -> bool {
        &&& self.constructors.wf()
        &&& forall|actor_type: Seq<char>, args: Vec<Vec<u8>>|
            self.constructors@.contains_key(actor_type)
                ==> #[trigger] self.constructors@[actor_type].accepts(args)
        &&& forall|i: int, state: S, args: Vec<Vec<u8>>|
            0 <= i < self.methods@.len() ==> #[trigger] self.methods@[i].method.accepts(state, args)
        &&& forall|i: int, j: int, actor_type: Seq<char>, method_id: Seq<char>| #[trigger]
            names(self.methods@, i, actor_type, method_id) && #[trigger] names(
                self.methods@,
                j,
                actor_type,
                method_id,
            ) ==> i == j
    }

    /// The actor types with a constructor.
    pub closed spec fn types(&self) -> Set<Seq<char>> {
        self.constructors@.dom()
    }

    /// The registered methods, each with its actor type.
    pub closed spec fn methods(&self) -> Set<(Seq<char>, Seq<char>)> {
        named_methods(self.methods@)
    }

    /// Whether the constructor of an actor type may return this for these arguments.
    pub closed spec fn constructs(
        &self,
        actor_type: Seq<char>,
        args: Vec<Vec<u8>>,
        r: Result<S, MiniRayError>,
    ) -> bool {
        self.constructors@[actor_type].allows(args, r)
    }

    /// Whether a method may leave and return this when it is called on a state.
    pub closed spec fn allows(
        &self,
        actor_type: Seq<char>,
        method_id: Seq<char>,
        state: S,
        args: Vec<Vec<u8>>,
        r: (S, Outcome),
    ) -> bool {
        method_allows(self.methods@, actor_type, method_id, state, args, r)
    }

    /// The methods are those of another registry, and do the same.
    pub open spec fn same_methods(&self, other: &Self) -> bool {
        &&& self.methods() == other.methods()
        &&& forall|t: Seq<char>, m: Seq<char>, state: S, args: Vec<Vec<u8>>, out: (S, Outcome)|
            #[trigger] self.allows(t, m, state, args, out) == other.allows(t, m, state, args, out)
    }

    /// The constructors are those of another registry, and do the same.
    pub open spec fn same_constructors(&self, other: &Self) -> bool {
        &&& self.types() == other.types()
        &&& forall|t: Seq<char>, args: Vec<Vec<u8>>, out: Result<S, MiniRayError>| #[trigger]
            self.constructs(t, args, out) == other.constructs(t, args, out)
    }

    /// This registry has one constructor more than another, of a new actor type; nothing else
    /// differs.
    pub open spec fn adds_constructor(&self, before: &Self, actor_type: Seq<char>) -> bool {
        &&& !before.types().contains(actor_type)
        &&& self.types() == before.types().insert(actor_type)
        &&& self.same_methods(before)
        &&& forall|t: Seq<char>, args: Vec<Vec<u8>>, out: Result<S, MiniRayError>|
            t != actor_type ==> #[trigger] self.constructs(t, args, out) == before.constructs(
                t,
                args,
                out,
            )
    }

    /// This registry has one method more than another, under a new name; nothing else differs.
    pub open spec fn adds_method(
        &self,
        before: &Self,
        actor_type: Seq<char>,
        method_id: Seq<char>,
    ) -> bool {
        &&& !before.methods().contains((actor_type, method_id))
        &&& self.methods() == before.methods().insert((actor_type, method_id))
        &&& self.same_constructors(before)
        &&& forall|t: Seq<char>, m: Seq<char>, state: S, args: Vec<Vec<u8>>, out: (S, Outcome)|
            (t, m) != (actor_type, method_id) ==> #[trigger] self.allows(t, m, state, args, out)
                == before.allows(t, m, state, args, out)
    }

    /// A registry without actor types.
    pub fn new() -> (registry: Self)
        ensures
            registry.wf(),
            registry.types() == Set::<Seq<char>>::empty(),
            registry.methods() == Set::<(Seq<char>, Seq<char>)>::empty(),
    {
        let registry = ActorRegistry { constructors: StringTable::new(), methods: Vec::new() };
        assert(registry.types() =~= Set::<Seq<char>>::empty());
        assert(registry.methods() =~= Set::<(Seq<char>, Seq<char>)>::empty());
        registry
    }

    fn enter_constructor(
        &mut self,
        actor_type: &str,
        constructor: Arc<Box<dyn ActorConstructor<S>>>,
    )
        requires
            old(self).wf(),
            !old(self).types().contains(actor_type@),
            forall|args: Vec<Vec<u8>>| #[trigger] constructor.accepts(args),
        ensures
            final(self).wf(),
            final(self).adds_constructor(old(self), actor_type@),
            forall|args: Vec<Vec<u8>>, out: Result<S, MiniRayError>| #[trigger]
                final(self).constructs(actor_type@, args, out) == constructor.allows(
                    args,
                    out,
                ),
    {
        let ghost before = *self;
        self.constructors.insert_new(actor_type.to_owned(), constructor);
        assert(self.types() =~= before.types().insert(actor_type@));
    }

    /// Registers a constructor from raw bytes for an actor type that has none.
    pub fn register_constructor_raw<F>(&mut self, actor_type: &str, constructor: F) -> (r: Result<
        (),
        MiniRayError,
    >) where F: Fn(Vec<Vec<u8>>) -> Result<S, MiniRayError> + Send + Sync + 'static
        requires
            old(self).wf(),
            forall|args: Vec<Vec<u8>>| #[trigger] call_requires(constructor, (args,)),
        ensures
            final(self).wf(),
            match r {
                Ok(_) => {
                    &&& final(self).adds_constructor(old(self), actor_type@)
                    &&& forall|args: Vec<Vec<u8>>, out: Result<S, MiniRayError>| #[trigger]
                        final(self).constructs(actor_type@, args, out) <==> call_ensures(
                            constructor,
                            (args,),
                            out,
                        )
                },
                Err(e) => old(self).types().contains(actor_type@) && *final(self) == *old(self)
                    && e@ == constructor_exists(actor_type@),
            },
    {
        if self.constructors.contains_key(actor_type) {
            return Err(
                MiniRayError::TaskFailed(
                    "actor constructor ".to_owned().concat(actor_type).concat(
                        " is already registered",
                    ),
                ),
            );
        }
        self.enter_constructor(actor_type, Arc::new(Box::new(constructor)));
        Ok(())
    }

    /// Registers a constructor without arguments.
    pub fn register_constructor_nullary<F>(&mut self, actor_type: &str, constructor: F) -> (r:
        Result<(), MiniRayError>) where F: Fn() -> S + Send + Sync + 'static
        requires
            old(self).wf(),
            call_requires(constructor, ()),
        ensures
            final(self).wf(),
            match r {
                Ok(_) => {
                    &&& final(self).adds_constructor(old(self), actor_type@)
                    &&& forall|args: Vec<Vec<u8>>, out: Result<S, MiniRayError>| #[trigger]
                        final(self).constructs(actor_type@, args, out) ==> nullary_construction(
                            &constructor,
                            args@,
                            out,
                        )
                },
                Err(e) => old(self).types().contains(actor_type@) && *final(self) == *old(self)
                    && e@ == constructor_exists(actor_type@),
            },
    {
        let raw = move |args: Vec<Vec<u8>>| -> (out: Result<S, MiniRayError>)
            ensures
                nullary_construction::<S, F>(&constructor, args@, out),
            {
                match expect_arg_count(args.as_slice(), 0) {
                    Err(e) => Err(e),
                    Ok(_) => Ok(constructor()),
                }
            };
        self.register_constructor_raw(actor_type, raw)
    }

    /// Registers a constructor of one argument.
    pub fn register_constructor_unary<F, Arg>(&mut self, actor_type: &str, constructor: F) -> (r:
        Result<(), MiniRayError>) where
        F: Fn(Arg) -> S + Send + Sync + 'static,
        Arg: DeserializeOwned,

        requires
            old(self).wf(),
            forall|arg: Arg| #[trigger] call_requires(constructor, (arg,)),
        ensures
            final(self).wf(),
            match r {
                Ok(_) => {
                    &&& final(self).adds_constructor(old(self), actor_type@)
                    &&& forall|args: Vec<Vec<u8>>, out: Result<S, MiniRayError>| #[trigger]
                        final(self).constructs(actor_type@, args, out) ==> unary_construction(
                            &constructor,
                            args@,
                            out,
                        )
                },
                Err(e) => old(self).types().contains(actor_type@) && *final(self) == *old(self)
                    && e@ == constructor_exists(actor_type@),
            },
    {
        let raw = move |args: Vec<Vec<u8>>| -> (out: Result<S, MiniRayError>)
            ensures
                unary_construction::<S, F, Arg>(&constructor, args@, out),
            {
                match expect_arg_count(args.as_slice(), 1) {
                    Err(e) => Err(e),
                    Ok(_) => match decode::<Arg>(args[0].as_slice()) {
                        Err(e) => Err(e),
                        Ok(arg) => Ok(constructor(arg)),
                    },
                }
            };
        self.register_constructor_raw(actor_type, raw)
    }

    fn method_position(&self, actor_type: &str, method_id: &str) -> (r: Option<usize>)
        ensures
            match r {
                Some(i) => names(self.methods@, i as int, actor_type@, method_id@)
                    && self.methods().contains((actor_type@, method_id@)),
                None => !self.methods().contains((actor_type@, method_id@)),
            },
    {
        let wanted_type = actor_type.to_owned();
        let wanted_id = method_id.to_owned();
        let n = self.methods.len();
        for i in 0..n
            invariant
                n == self.methods@.len(),
                wanted_type@ == actor_type@,
                wanted_id@ == method_id@,
                forall|j: int| 0 <= j < i ==> !names(self.methods@, j, actor_type@, method_id@),
        {
            if self.methods[i].actor_type == wanted_type && self.methods[i].method_id == wanted_id {
                proof {
                    let key = (actor_type@, method_id@);
                    assert(names(self.methods@, i as int, key.0, key.1));
                    assert(self.methods().contains(key));
                }
                return Some(i);
            }
        }
        None
    }

    fn enter_method(&mut self, entry: MethodEntry<S>)
        requires
            old(self).wf(),
            !old(self).methods().contains((entry.actor_type@, entry.method_id@)),
            forall|state: S, args: Vec<Vec<u8>>| #[trigger] entry.method.accepts(state, args),
        ensures
            final(self).wf(),
            final(self).adds_method(old(self), entry.actor_type@, entry.method_id@),
            forall|state: S, args: Vec<Vec<u8>>, out: (S, Outcome)| #[trigger]
                final(self).allows(entry.actor_type@, entry.method_id@, state, args, out)
                    == entry.method.allows(state, args, out),
    {
        let ghost before = self.methods@;
        let ghost n = before.len() as int;
        let ghost key = (entry.actor_type@, entry.method_id@);
        self.methods.push(entry);
        proof {
            assert forall|i: int, t: Seq<char>, m: Seq<char>| #[trigger]
                names(self.methods@, i, t, m) <==> names(before, i, t, m) || i == n && (t, m)
                == key by {}
            assert forall|k: (Seq<char>, Seq<char>)| #[trigger]
                named_methods(self.methods@).contains(k) <==> named_methods(before).contains(k)
                    || k == key by {
                if k == key {
                    assert(names(self.methods@, n, k.0, k.1));
                }
                if named_methods(before).contains(k) {
                    let i = choose|i: int| names(before, i, k.0, k.1);
                    assert(names(self.methods@, i, k.0, k.1));
                }
                if named_methods(self.methods@).contains(k) {
                    let i = choose|i: int| names(self.methods@, i, k.0, k.1);
                    assert(names(self.methods@, i, k.0, k.1));
                }
            }
            assert(self.methods() =~= old(self).methods().insert(key));
            assert forall|t: Seq<char>, m: Seq<char>, state: S, args: Vec<Vec<u8>>, out: (S, Outcome)|
                (t, m) != key implies #[trigger] self.allows(t, m, state, args, out) == old(
                self,
            ).allows(t, m, state, args, out) by {
                if old(self).allows(t, m, state, args, out) {
                    let i = choose|i: int|
                        names(before, i, t, m) && before[i].method.allows(state, args, out);
                    assert(names(self.methods@, i, t, m));
                }
            }
            assert forall|state: S, args: Vec<Vec<u8>>, out: (S, Outcome)| #[trigger]
                self.allows(key.0, key.1, state, args, out) == entry.method.allows(
                state,
                args,
                out,
            ) by {
                assert(names(self.methods@, n, key.0, key.1));
                assert forall|i: int| #[trigger] names(self.methods@, i, key.0, key.1) implies i
                    == n by {
                    if names(before, i, key.0, key.1) {
                        assert(named_methods(before).contains(key));
                    }
                }
            }
        }
    }

    /// Registers a method on raw bytes under a name that its actor type has not.
    pub fn register_method_raw<F>(&mut self, actor_type: &str, method_id: &str, method: F) -> (r:
        Result<(), MiniRayError>) where
        F: Fn(S, Vec<Vec<u8>>) -> (S, Outcome) + Send + Sync + 'static,

        requires
            old(self).wf(),
            forall|state: S, args: Vec<Vec<u8>>| #[trigger] call_requires(method, (state, args)),
        ensures
            final(self).wf(),
            match r {
                Ok(_) => {
                    &&& final(self).adds_method(old(self), actor_type@, method_id@)
                    &&& forall|state: S, args: Vec<Vec<u8>>, out: (S, Outcome)| #[trigger]
                        final(self).allows(actor_type@, method_id@, state, args, out)
                            <==> call_ensures(method, (state, args), out)
                },
                Err(e) => {
                    &&& old(self).methods().contains((actor_type@, method_id@))
                    &&& *final(self) == *old(self)
                    &&& e@ == method_exists(actor_type@, method_id@)
                },
            },
    {
        if self.method_position(actor_type, method_id).is_some() {
            return Err(
                MiniRayError::TaskFailed(
                    "actor method ".to_owned().concat(actor_type).concat(".").concat(
                        method_id,
                    ).concat(" is already registered"),
                ),
            );
        }
        self.enter_method(
            MethodEntry {
                method: Arc::new(Box::new(method)),
                actor_type: actor_type.to_owned(),
                method_id: method_id.to_owned(),
            },
        );
        Ok(())
    }

    /// Registers a method of one argument on actors of one type. `unpack` takes the actor out of a
    /// state, or hands the state back where it holds an actor of another type; `pack` is its
    /// inverse.
    pub fn register_method_unary<U, P, F, Actor, Arg, Out>(
        &mut self,
        actor_type: &str,
        method_id: &str,
        unpack: U,
        pack: P,
        method: F,
    ) -> (r: Result<(), MiniRayError>) where
        U: Fn(S) -> Result<Actor, S> + Send + Sync + 'static,
        P: Fn(Actor) -> S + Send + Sync + 'static,
        F: Fn(Actor, Arg) -> (Actor, Out) + Send + Sync + 'static,
        Arg: DeserializeOwned,
        Out: Serialize,

        requires
            old(self).wf(),
            forall|state: S| #[trigger] call_requires(unpack, (state,)),
            forall|actor: Actor| #[trigger] call_requires(pack, (actor,)),
            forall|actor: Actor, arg: Arg| #[trigger] call_requires(method, (actor, arg)),
        ensures
            final(self).wf(),
            match r {
                Ok(_) => {
                    &&& final(self).adds_method(old(self), actor_type@, method_id@)
                    &&& forall|state: S, args: Vec<Vec<u8>>, out: (S, Outcome)| #[trigger]
                        final(self).allows(actor_type@, method_id@, state, args, out) ==> unary_call(
                            &unpack,
                            &pack,
                            &method,
                            actor_type@,
                            state,
                            args@,
                            out,
                        )
                },
                Err(e) => {
                    &&& old(self).methods().contains((actor_type@, method_id@))
                    &&& *final(self) == *old(self)
                    &&& e@ == method_exists(actor_type@, method_id@)
                },
            },
    {
        let name = actor_type.to_owned();
        let raw = move |state: S, args: Vec<Vec<u8>>| -> (out: (S, Outcome))
            ensures
                unary_call::<S, U, P, F, Actor, Arg, Out>(
                    &unpack,
                    &pack,
                    &method,
                    name@,
                    state,
                    args@,
                    out,
                ),
            {
                match expect_arg_count(args.as_slice(), 1) {
                    Err(e) => (state, Err(e)),
                    Ok(_) => match unpack(state) {
                        Err(kept) => (
                            kept,
                            Err(
                                MiniRayError::TaskFailed(
                                    "actor state type mismatch for ".to_owned().concat(
                                        name.as_str(),
                                    ),
                                ),
                            ),
                        ),
                        Ok(actor) => match decode::<Arg>(args[0].as_slice()) {
                            Err(e) => (pack(actor), Err(e)),
                            Ok(arg) => {
                                let (left, value) = method(actor, arg);
                                (pack(left), encode(&value))
                            },
                        },
                    },
                }
            };
        self.register_method_raw(actor_type, method_id, raw)
    }

    /// Makes the state of a new actor.
    pub fn construct(&self, actor_type: &str, args: Vec<Vec<u8>>) -> (r: Result<S, MiniRayError>)
        requires
            self.wf(),
        ensures
            if self.types().contains(actor_type@) {
                self.constructs(actor_type@, args, r)
            } else {
                r matches Err(e) && e@ == unknown_constructor(actor_type@)
            },
    {
        match self.constructors.get(actor_type) {
            None => Err(
                MiniRayError::TaskFailed("unknown actor constructor ".to_owned().concat(actor_type)),
            ),
            Some(constructor) => constructor.run(args),
        }
    }

    /// Runs a method on the state of an actor. Where the method is not registered, the state stays
    /// as it is.
    pub fn execute_method(
        &self,
        actor_type: &str,
        method_id: &str,
        state: S,
        args: Vec<Vec<u8>>,
    ) -> (r: (S, Outcome))
        requires
            self.wf(),
        ensures
            self.may_run(actor_type@, method_id@, state, args, r),
    {
        match self.method_position(actor_type, method_id) {
            None => (
                state,
                Err(
                    MiniRayError::TaskFailed(
                        "unknown actor method ".to_owned().concat(actor_type).concat(".").concat(
                            method_id,
                        ),
                    ),
                ),
            ),
            Some(i) => self.methods[i].method.run(state, args),
        }
    }
}

/// An actor that lives with a worker.
struct ActorInstance<S> {
    actor_type: String,
    state: S,
}

/// The content of an actor that lives with a worker.
pub struct InstanceView<S> {
    /// The type that it was made as.
    pub actor_type: Seq<char>,
    /// Its state.
    pub state: S,
}

/// The actors that live with a worker, by name.
pub struct ActorInstanceStore<S> {
    actors: StringTable<ActorInstance<S>>,
}

impl<S> View for ActorInstanceStore<S> {
    type V = Map<Seq<char>, InstanceView<S>>;

    closed spec fn view(&self) -> Map<Seq<char>, InstanceView<S>> {
        self.actors@.map_values(
            |instance: ActorInstance<S>|
                InstanceView { actor_type: instance.actor_type@, state: instance.state },
        )
    }
}

/// The error for a call of an actor as one of another type.
pub open spec fn wrong_actor_type(
    actor_id: Seq<char>,
    actual: Seq<char>,
    expected: Seq<char>,
) -> ErrorView {
    ErrorView::TaskFailed("actor "@ + actor_id + " is "@ + actual + ", not "@ + expected)
}

impl<S> ActorRegistry<S> {
    /// What running a method on a state may leave and return.
    pub open spec fn may_run(
        &self,
        actor_type: Seq<char>,
        method_id: Seq<char>,
        state: S,
        args: Vec<Vec<u8>>,
        r: (S, Outcome),
    ) -> bool {
        if self.methods().contains((actor_type, method_id)) {
            self.allows(actor_type, method_id, state, args, r)
        } else {
            r.0 == state && (r.1 matches Err(e) && e@ == unknown_method(actor_type, method_id))
        }
    }

    /// What calling a method of an actor may do to the actors of a worker, and return. An actor that
    /// does not exist yet is made from the constructor's arguments first; otherwise those are not
    /// looked at, and the method runs on the state that the last call left.
    pub open spec fn may_execute(
        &self,
        before: Map<Seq<char>, InstanceView<S>>,
        actor_id: Seq<char>,
        actor_type: Seq<char>,
        method_id: Seq<char>,
        constructor_args: Vec<Vec<u8>>,
        method_args: Vec<Vec<u8>>,
        after: Map<Seq<char>, InstanceView<S>>,
        r: Outcome,
    ) -> bool {
        if before.contains_key(actor_id) {
            if before[actor_id].actor_type != actor_type {
                &&& after == before
                &&& r matches Err(e) && e@ == wrong_actor_type(
                    actor_id,
                    before[actor_id].actor_type,
                    actor_type,
                )
            } else {
                exists|left: S|
                    {
                        &&& #[trigger] self.may_run(
                            actor_type,
                            method_id,
                            before[actor_id].state,
                            method_args,
                            (left, r),
                        )
                        &&& after == before.insert(
                            actor_id,
                            InstanceView { actor_type, state: left },
                        )
                    }
            }
        } else if !self.types().contains(actor_type) {
            after == before && (r matches Err(e) && e@ == unknown_constructor(actor_type))
        } else {
            exists|made: Result<S, MiniRayError>|
                {
                    &&& #[trigger] self.constructs(actor_type, constructor_args, made)
                    &&& match made {
                        Err(e) => after == before && r == Err::<Vec<u8>, MiniRayError>(e),
                        Ok(state) => exists|left: S|
                            {
                                &&& #[trigger] self.may_run(
                                    actor_type,
                                    method_id,
                                    state,
                                    method_args,
                                    (left, r),
                                )
                                &&& after == before.insert(
                                    actor_id,
                                    InstanceView { actor_type, state: left },
                                )
                            },
                    }
                }
        }
    }
}

impl<S> ActorInstanceStore<S> {
    /// No actor is in the store twice.
    pub closed spec fn wf(&self) -> bool {
        self.actors.wf()
    }

    /// A store without actors.
    pub fn new() -> (store: Self)
        ensures
            store.wf(),
            store@ == Map::<Seq<char>, InstanceView<S>>::empty(),
    {
        let store = ActorInstanceStore { actors: StringTable::new() };
        assert(store@ =~= Map::<Seq<char>, InstanceView<S>>::empty());
        store
    }

    /// How many actors live in the store.
    pub fn len(&self) -> (n: usize)
        requires
            self.wf(),
        ensures
            self@.dom().finite(),
            n == self@.dom().len(),
    {
        assert(self@.dom() =~= self.actors@.dom());
        self.actors.len()
    }

    /// Calls a method of an actor, which is made first where it does not exist yet.
    pub fn execute(
        &mut self,
        registry: &ActorRegistry<S>,
        actor_id: &str,
        actor_type: &str,
        method_id: &str,
        constructor_args: Vec<Vec<u8>>,
        method_args: Vec<Vec<u8>>,
    ) -> (r: Outcome)
        requires
            old(self).wf(),
            registry.wf(),
        ensures
            final(self).wf(),
            registry.may_execute(
                old(self)@,
                actor_id@,
                actor_type@,
                method_id@,
                constructor_args,
                method_args,
                final(self)@,
                r,
            ),
    {
        let ghost before = self@;
        let instance = match self.actors.remove(actor_id) {
            Some(instance) => {
                if instance.actor_type != actor_type.to_owned() {
                    let message = "actor ".to_owned().concat(actor_id).concat(" is ").concat(
                        instance.actor_type.as_str(),
                    ).concat(", not ").concat(actor_type);
                    self.actors.insert_new(actor_id.to_owned(), instance);
                    assert(self@ =~= before);
                    return Err(MiniRayError::TaskFailed(message));
                }
                instance
            },
            None => match registry.construct(actor_type, constructor_args) {
                Err(e) => {
                    assert(self@ =~= before);
                    return Err(e);
                },
                Ok(state) => ActorInstance { actor_type: actor_type.to_owned(), state },
            },
        };
        let ActorInstance { actor_type: kept, state } = instance;
        assert(!before.contains_key(actor_id@) ==> registry.constructs(
            actor_type@,
            constructor_args,
            Ok(state),
        ));
        assert(before.contains_key(actor_id@) ==> state == before[actor_id@].state);
        let (left, r) = registry.execute_method(actor_type, method_id, state, method_args);
        self.actors.insert_new(actor_id.to_owned(), ActorInstance { actor_type: kept, state: left });
        assert(self@ =~= before.insert(
            actor_id@,
            InstanceView { actor_type: actor_type@, state: left },
        ));
        assert(registry.may_run(actor_type@, method_id@, state, method_args, (left, r)));
        r
    }
}

impl<S> ActorRegistry<S> {
    /// An actor is made once: where it exists, the constructor's arguments do not matter.
    pub proof fn existing_actors_are_not_made_again(
        &self,
        before: Map<Seq<char>, InstanceView<S>>,
        actor_id: Seq<char>,
        actor_type: Seq<char>,
        method_id: Seq<char>,
        constructor_args: Vec<Vec<u8>>,
        other_args: Vec<Vec<u8>>,
        method_args: Vec<Vec<u8>>,
        after: Map<Seq<char>, InstanceView<S>>,
        r: Outcome,
    )
        requires
            before.contains_key(actor_id),
        ensures
            self.may_execute(
                before,
                actor_id,
                actor_type,
                method_id,
                constructor_args,
                method_args,
                after,
                r,
            ) == self.may_execute(
                before,
                actor_id,
                actor_type,
                method_id,
                other_args,
                method_args,
                after,
                r,
            ),
    {
    }

    /// A call touches no other actor than the one that is called, makes no actor vanish, and leaves
    /// every actor of the type that it was made as.
    pub proof fn calls_touch_one_actor(
        &self,
        before: Map<Seq<char>, InstanceView<S>>,
        actor_id: Seq<char>,
        actor_type: Seq<char>,
        method_id: Seq<char>,
        constructor_args: Vec<Vec<u8>>,
        method_args: Vec<Vec<u8>>,
        after: Map<Seq<char>, InstanceView<S>>,
        r: Outcome,
        other: Seq<char>,
    )
        requires
            self.may_execute(
                before,
                actor_id,
                actor_type,
                method_id,
                constructor_args,
                method_args,
                after,
                r,
            ),
        ensures
            other != actor_id ==> after.contains_key(other) == before.contains_key(other),
            other != actor_id && before.contains_key(other) ==> after[other] == before[other],
            before.contains_key(other) ==> after.contains_key(other) && after[other].actor_type
                == before[other].actor_type,
            after.contains_key(other) && !before.contains_key(other) ==> after[other].actor_type
                == actor_type,
    {
    }

    /// An actor keeps its state from call to call: the second of two calls runs on the state that
    /// the first one left.
    pub proof fn state_carries_over(
        &self,
        before: Map<Seq<char>, InstanceView<S>>,
        actor_id: Seq<char>,
        actor_type: Seq<char>,
        first_method: Seq<char>,
        first_constructor_args: Vec<Vec<u8>>,
        first_args: Vec<Vec<u8>>,
        between: Map<Seq<char>, InstanceView<S>>,
        first: Outcome,
        second_method: Seq<char>,
        second_constructor_args: Vec<Vec<u8>>,
        second_args: Vec<Vec<u8>>,
        after: Map<Seq<char>, InstanceView<S>>,
        second: Outcome,
    )
        requires
            self.may_execute(
                before,
                actor_id,
                actor_type,
                first_method,
                first_constructor_args,
                first_args,
                between,
                first,
            ),
            first is Ok || between.contains_key(actor_id) && between[actor_id].actor_type
                == actor_type,
            self.may_execute(
                between,
                actor_id,
                actor_type,
                second_method,
                second_constructor_args,
                second_args,
                after,
                second,
            ),
        ensures
            between.contains_key(actor_id),
            exists|left: S|
                {
                    &&& #[trigger] self.may_run(
                        actor_type,
                        second_method,
                        between[actor_id].state,
                        second_args,
                        (left, second),
                    )
                    &&& after == between.insert(actor_id, InstanceView { actor_type, state: left })
                },
    {
    }
}

impl<S> Clone for ActorRegistry<S> {
    fn clone(&self) -> (copy: Self)
        ensures
            self.wf() ==> {
                &&& copy.wf()
                &&& copy.same_constructors(self)
                &&& copy.same_methods(self)
            },
    {
        let constructors = self.constructors.clone();
        let mut methods: Vec<MethodEntry<S>> = Vec::new();
        let n = self.methods.len();
        for i in 0..n
            invariant
                n == self.methods@.len(),
                methods@ == self.methods@.take(i as int),
        {
            methods.push(self.methods[i].share_method());
            assert(self.methods@.take(i + 1) =~= self.methods@.take(i as int).push(
                self.methods@[i as int],
            ));
        }
        assert(self.methods@.take(n as int) =~= self.methods@);
        ActorRegistry { constructors, methods }
    }
}

impl<S> Default for ActorRegistry<S> {
    fn default() -> (registry: Self)
        ensures
            registry.wf(),
            registry.types() == Set::<Seq<char>>::empty(),
            registry.methods() == Set::<(Seq<char>, Seq<char>)>::empty(),
    {
        Self::new()
    }
}

impl<S> Default for ActorInstanceStore<S> {
    fn default() -> (store: Self)
        ensures
            store.wf(),
            store@ == Map::<Seq<char>, InstanceView<S>>::empty(),
    {
        Self::new()
    }
}

/// The errors of an actor registry say which type, method or actor they are about.
pub proof fn actor_errors_say_what_is_wrong(
    actor_id: Seq<char>,
    actor_type: Seq<char>,
    other_type: Seq<char>,
    method_id: Seq<char>,
)
    ensures
        constructor_exists(actor_type) == ErrorView::TaskFailed(
            "actor constructor "@ + actor_type + " is already registered"@,
        ),
        unknown_constructor(actor_type) == ErrorView::TaskFailed(
            "unknown actor constructor "@ + actor_type,
        ),
        method_exists(actor_type, method_id) == ErrorView::TaskFailed(
            "actor method "@ + actor_type + "."@ + method_id + " is already registered"@,
        ),
        unknown_method(actor_type, method_id) == ErrorView::TaskFailed(
            "unknown actor method "@ + actor_type + "."@ + method_id,
        ),
        state_mismatch(actor_type) == ErrorView::TaskFailed(
            "actor state type mismatch for "@ + actor_type,
        ),
        wrong_actor_type(actor_id, actor_type, other_type) == ErrorView::TaskFailed(
            "actor "@ + actor_id + " is "@ + actor_type + ", not "@ + other_type,
        ),
{
}

/// A constructor makes the state by its function: on nothing, or on what its one argument may be
/// decoded as. Any other number of arguments is refused with both numbers.
pub proof fn constructors_run_their_functions<
    S,
    F: Fn() -> S,
    G: Fn(Arg) -> S,
    Arg: DeserializeOwned,
>(f: &F, g: &G, args: Seq<Vec<u8>>, r: Result<S, MiniRayError>)
    ensures
        nullary_construction(f, args, r) ==> {
            &&& args.len() == 0 ==> (r matches Ok(state) && call_ensures(*f, (), state))
            &&& args.len() != 0 ==> (r matches Err(e) && e@ == ErrorView::TaskFailed(
                "expected "@ + text::decimal_text(0) + " args, got "@ + text::decimal_text(
                    args.len(),
                ),
            ))
        },
        unary_construction::<S, G, Arg>(g, args, r) ==> {
            &&& args.len() == 1 ==> match r {
                Ok(state) => exists|arg: Arg|
                    codec::may_decode(args[0]@, Ok(arg)) && #[trigger] call_ensures(
                        *g,
                        (arg,),
                        state,
                    ),
                Err(e) => codec::may_decode::<Arg>(args[0]@, Err(e)),
            }
            &&& args.len() != 1 ==> (r matches Err(e) && e@ == ErrorView::TaskFailed(
                "expected "@ + text::decimal_text(1) + " args, got "@ + text::decimal_text(
                    args.len(),
                ),
            ))
        },
{
    if unary_construction::<S, G, Arg>(g, args, r) && args.len() == 1 {
        let arg = choose|arg: Result<Arg, MiniRayError>|
            {
                &&& #[trigger] codec::may_decode(args[0]@, arg)
                &&& match arg {
                    Err(e) => r == Err::<S, MiniRayError>(e),
                    Ok(arg) => r matches Ok(state) && call_ensures(*g, (arg,), state),
                }
            };
        if let Ok(arg) = arg {
            assert(call_ensures(*g, (arg,), r->Ok_0));
        }
    }
}

/// A method with one argument that succeeds has run its function on the actor that the state held and
/// on what the argument may be decoded as; what the function left of the actor is the state from then
/// on, and its result is what comes back encoded. Where the state holds no such actor, it is handed
/// back as it was taken, with an error that names the type.
pub proof fn unary_methods_run_their_functions<
    S,
    U: Fn(S) -> Result<Actor, S>,
    P: Fn(Actor) -> S,
    F: Fn(Actor, Arg) -> (Actor, Out),
    Actor,
    Arg: DeserializeOwned,
    Out: Serialize,
>(
    unpack: &U,
    pack: &P,
    f: &F,
    actor_type: Seq<char>,
    state: S,
    args: Seq<Vec<u8>>,
    r: (S, Outcome),
)
    requires
        unary_call::<S, U, P, F, Actor, Arg, Out>(unpack, pack, f, actor_type, state, args, r),
    ensures
        r.1 is Ok ==> args.len() == 1 && exists|actor: Actor, arg: Arg, left: (Actor, Out)|
            {
                &&& call_ensures(*unpack, (state,), Ok(actor))
                &&& codec::may_decode(args[0]@, Ok(arg))
                &&& #[trigger] call_ensures(*f, (actor, arg), left)
                &&& call_ensures(*pack, (left.0,), r.0)
                &&& codec::may_encode(left.1, r.1)
            },
        args.len() != 1 ==> r.0 == state && (r.1 matches Err(e) && e@ == ErrorView::TaskFailed(
            "expected "@ + text::decimal_text(1) + " args, got "@ + text::decimal_text(args.len()),
        )),
        args.len() == 1 && (forall|u: Result<Actor, S>| #[trigger]
            call_ensures(*unpack, (state,), u) ==> u is Err) ==> {
            &&& call_ensures(*unpack, (state,), Err(r.0))
            &&& r.1 matches Err(e) && e@ == ErrorView::TaskFailed(
                "actor state type mismatch for "@ + actor_type,
            )
        },
        args.len() == 1 && runtime::undecodable::<Arg>(args[0]@) && (forall|u: Result<Actor, S>|
            #[trigger]
            call_ensures(*unpack, (state,), u) ==> u is Ok) ==> exists|actor: Actor|
            call_ensures(*unpack, (state,), Ok(actor)) && #[trigger] call_ensures(
                *pack,
                (actor,),
                r.0,
            ),
{
    if args.len() == 1 {
        let unpacked = choose|unpacked: Result<Actor, S>|
            {
                &&& #[trigger] call_ensures(*unpack, (state,), unpacked)
                &&& match unpacked {
                    Err(kept) => r.0 == kept && (r.1 matches Err(e) && e@ == state_mismatch(
                        actor_type,
                    )),
                    Ok(actor) => exists|arg: Result<Arg, MiniRayError>|
                        {
                            &&& #[trigger] codec::may_decode(args[0]@, arg)
                            &&& match arg {
                                Err(e) => call_ensures(*pack, (actor,), r.0) && r.1 == Err::<
                                    Vec<u8>,
                                    MiniRayError,
                                >(e),
                                Ok(arg) => exists|left: (Actor, Out)|
                                    {
                                        &&& #[trigger] call_ensures(*f, (actor, arg), left)
                                        &&& call_ensures(*pack, (left.0,), r.0)
                                        &&& codec::may_encode(left.1, r.1)
                                    },
                            }
                        },
                }
            };
        if let Ok(actor) = unpacked {
            let arg = choose|arg: Result<Arg, MiniRayError>|
                {
                    &&& #[trigger] codec::may_decode(args[0]@, arg)
                    &&& match arg {
                        Err(e) => call_ensures(*pack, (actor,), r.0) && r.1 == Err::<
                            Vec<u8>,
                            MiniRayError,
                        >(e),
                        Ok(arg) => exists|left: (Actor, Out)|
                            {
                                &&& #[trigger] call_ensures(*f, (actor, arg), left)
                                &&& call_ensures(*pack, (left.0,), r.0)
                                &&& codec::may_encode(left.1, r.1)
                            },
                    }
                };
            if arg is Err {
                assert(call_ensures(*pack, (actor,), r.0));
            }
        }
    }
}

impl<S> ActorRegistry<S> {
    /// What a call comes to. On an actor that exists, the method runs on the state that the actor
    /// has; an actor that does not exist is made from the constructor's arguments first, and the
    /// method runs on what was made. Either way the method gets the arguments of the call, and the
    /// actor has the state that the method leaves.
    pub proof fn calls_run_the_method_on_the_actor(
        &self,
        before: Map<Seq<char>, InstanceView<S>>,
        actor_id: Seq<char>,
        actor_type: Seq<char>,
        method_id: Seq<char>,
        constructor_args: Vec<Vec<u8>>,
        method_args: Vec<Vec<u8>>,
        after: Map<Seq<char>, InstanceView<S>>,
        r: Outcome,
    )
        requires
            self.may_execute(
                before,
                actor_id,
                actor_type,
                method_id,
                constructor_args,
                method_args,
                after,
                r,
            ),
        ensures
            ({
                let exists_before = before.contains_key(actor_id);
                let fits = exists_before && before[actor_id].actor_type == actor_type;
                let known = self.methods().contains((actor_type, method_id));
                let unknown = ErrorView::TaskFailed(
                    "unknown actor method "@ + actor_type + "."@ + method_id,
                );
                &&& exists_before && !fits ==> {
                    &&& after == before
                    &&& r matches Err(e) && e@ == ErrorView::TaskFailed(
                        "actor "@ + actor_id + " is "@ + before[actor_id].actor_type + ", not "@
                            + actor_type,
                    )
                }
                &&& fits ==> {
                    &&& after.contains_key(actor_id)
                    &&& after[actor_id].actor_type == actor_type
                    &&& known ==> self.allows(
                        actor_type,
                        method_id,
                        before[actor_id].state,
                        method_args,
                        (after[actor_id].state, r),
                    )
                    &&& !known ==> {
                        &&& after[actor_id].state == before[actor_id].state
                        &&& r matches Err(e) && e@ == unknown
                    }
                }
                &&& !exists_before && !self.types().contains(actor_type) ==> {
                    &&& after == before
                    &&& r matches Err(e) && e@ == ErrorView::TaskFailed(
                        "unknown actor constructor "@ + actor_type,
                    )
                }
                &&& !exists_before && self.types().contains(actor_type) ==> {
                    if after.contains_key(actor_id) {
                        &&& after[actor_id].actor_type == actor_type
                        &&& exists|made: S| #[trigger]
                            self.constructs(actor_type, constructor_args, Ok(made)) && if known {
                                self.allows(
                                    actor_type,
                                    method_id,
                                    made,
                                    method_args,
                                    (after[actor_id].state, r),
                                )
                            } else {
                                after[actor_id].state == made && (r matches Err(e) && e@ == unknown)
                            }
                    } else {
                        &&& after == before
                        &&& r matches Err(e) && self.constructs(actor_type, constructor_args, Err(e))
                    }
                }
            }),
    {
    }

    /// Registering a constructor adds one actor type, which had none; every other constructor and all
    /// methods do what they did before.
    pub proof fn registering_adds_one_constructor(
        &self,
        before: &Self,
        actor_type: Seq<char>,
        t: Seq<char>,
        m: Seq<char>,
        state: S,
        args: Vec<Vec<u8>>,
        made: Result<S, MiniRayError>,
        out: (S, Outcome),
    )
        requires
            self.adds_constructor(before, actor_type),
        ensures
            !before.types().contains(actor_type),
            self.types().contains(t) <==> before.types().contains(t) || t == actor_type,
            t != actor_type ==> self.constructs(t, args, made) == before.constructs(t, args, made),
            self.methods() == before.methods(),
            self.allows(t, m, state, args, out) == before.allows(t, m, state, args, out),
    {
    }

    /// Registering a method adds one name, which its actor type had not; every other method and all
    /// constructors do what they did before.
    pub proof fn registering_adds_one_method(
        &self,
        before: &Self,
        actor_type: Seq<char>,
        method_id: Seq<char>,
        t: Seq<char>,
        m: Seq<char>,
        state: S,
        args: Vec<Vec<u8>>,
        made: Result<S, MiniRayError>,
        out: (S, Outcome),
    )
        requires
            self.adds_method(before, actor_type, method_id),
        ensures
            !before.methods().contains((actor_type, method_id)),
            self.methods().contains((t, m)) <==> before.methods().contains((t, m)) || (t
                == actor_type && m == method_id),
            t != actor_type || m != method_id ==> self.allows(t, m, state, args, out)
                == before.allows(t, m, state, args, out),
            self.types() == before.types(),
            self.constructs(t, args, made) == before.constructs(t, args, made),
    {
    }
}

} // verus!
