//! The tasks that a worker can run.
use crate::codec::{self, decode, encode};
use crate::error::{ErrorView, MiniRayError};
use crate::string_table::StringTable;
use crate::text;
use serde::de::DeserializeOwned;
use serde::Serialize;
use std::sync::Arc;
use vstd::prelude::*;
use vstd::string::StringExecFns;

verus! {

/// The result of running a task: the bytes of its output, or an error.
pub type Outcome = Result<Vec<u8>, MiniRayError>;

/// What runs a task: a function from the bytes of the arguments to the bytes of the result.
pub trait TaskHandler: Send + Sync {
    /// Whether the handler may be called with these arguments.
    spec fn accepts(&self, args: Vec<Vec<u8>>) -> bool;

    /// Whether the handler may return this for these arguments.
    spec fn allows(&self, args: Vec<Vec<u8>>, r: Outcome) -> bool;

    /// Runs the task.
    fn run(&self, args: Vec<Vec<u8>>) -> (r: Outcome)
        requires
            self.accepts(args),
        ensures
            self.allows(args, r),
    ;
}

impl<F: Fn(Vec<Vec<u8>>) -> Outcome + Send + Sync> TaskHandler for F {
    open spec fn accepts(&self, args: Vec<Vec<u8>>) -> bool {
        call_requires(*self, (args,))
    }

    open spec fn allows(&self, args: Vec<Vec<u8>>, r: Outcome) -> bool {
        call_ensures(*self, (args,), r)
    }

    fn run(&self, args: Vec<Vec<u8>>) -> (r: Outcome) {
        self(args)
    }
}

/// The error for a call with the wrong number of arguments.
pub open spec fn wrong_arg_count(expected: nat, got: nat) -> ErrorView {
    ErrorView::TaskFailed(
        "expected "@ + text::decimal_text(expected) + " args, got "@ + text::decimal_text(got),
    )
}

/// Checks the number of arguments.
pub fn expect_arg_count(args: &[Vec<u8>], expected: usize) -> (r: Result<(), MiniRayError>)
    ensures
        match r {
            Ok(_) => args@.len() == expected,
            Err(e) => args@.len() != expected && e@ == wrong_arg_count(
                expected as nat,
                args@.len(),
            ),
        },
{
    if args.len() == expected {
        Ok(())
    } else {
        Err(
            MiniRayError::TaskFailed(
                "expected ".to_owned().concat(text::decimal(expected).as_str()).concat(
                    " args, got ",
                ).concat(text::decimal(args.len()).as_str()),
            ),
        )
    }
}

/// What a handler without arguments may return: the encoded result of its function.
pub open spec fn nullary_outcome<F: Fn() -> Out, Out: Serialize>(
    f: &F,
    args: Seq<Vec<u8>>,
    r: Outcome,
) -> bool {
    if args.len() != 0 {
        r matches Err(e) && e@ == wrong_arg_count(0, args.len())
    } else {
        exists|out: Out| #[trigger]
            call_ensures(*f, (), out) && codec::may_encode(out, r)
    }
}

/// What a handler with one argument may return: the encoded result of its function on the decoded
/// argument, or the error of decoding it.
pub open spec fn unary_outcome<F: Fn(Arg) -> Out, Arg: DeserializeOwned, Out: Serialize>(
    f: &F,
    args: Seq<Vec<u8>>,
    r: Outcome,
) -> bool {
    if args.len() != 1 {
        r matches Err(e) && e@ == wrong_arg_count(1, args.len())
    } else {
        exists|arg: Result<Arg, MiniRayError>|
            {
                &&& #[trigger] codec::may_decode(args[0]@, arg)
                &&& match arg {
                    Err(e) => r == Err::<Vec<u8>, MiniRayError>(e),
                    Ok(arg) => exists|out: Out| #[trigger]
                        call_ensures(*f, (arg,), out) && codec::may_encode(out, r),
                }
            }
    }
}

/// What a handler with two arguments may return: the encoded result of its function on the decoded
/// arguments, or the error of decoding the first of them that cannot be decoded.
pub open spec fn binary_outcome<
    F: Fn(A, B) -> Out,
    A: DeserializeOwned,
    B: DeserializeOwned,
    Out: Serialize,
>(f: &F, args: Seq<Vec<u8>>, r: Outcome) -> bool {
    if args.len() != 2 {
        r matches Err(e) && e@ == wrong_arg_count(2, args.len())
    } else {
        exists|first: Result<A, MiniRayError>|
            {
                &&& #[trigger] codec::may_decode(args[0]@, first)
                &&& match first {
                    Err(e) => r == Err::<Vec<u8>, MiniRayError>(e),
                    Ok(a) => exists|second: Result<B, MiniRayError>|
                        {
                            &&& #[trigger] codec::may_decode(args[1]@, second)
                            &&& match second {
                                Err(e) => r == Err::<Vec<u8>, MiniRayError>(e),
                                Ok(b) => exists|out: Out| #[trigger]
                                    call_ensures(*f, (a, b), out) && codec::may_encode(out, r),
                            }
                        },
                }
            }
    }
}


/// Whether bytes cannot be decoded as a `T`.
pub open spec fn undecodable<T: DeserializeOwned>(bytes: Seq<u8>) -> bool {
    forall|r: Result<T, MiniRayError>| #[trigger] codec::may_decode(bytes, r) ==> r is Err
}

/// A handler without arguments refuses arguments, and otherwise returns the encoded result of its
/// function; all that can go wrong then is the encoding.
pub proof fn nullary_handlers_encode<F: Fn() -> Out, Out: Serialize>(
    f: &F,
    args: Seq<Vec<u8>>,
    r: Outcome,
)
    requires
        nullary_outcome::<F, Out>(f, args, r),
    ensures
        args.len() != 0 ==> (r matches Err(e) && e is TaskFailed),
        args.len() == 0 ==> (r matches Err(e) ==> e is Encode),
        args.len() == 0 ==> exists|out: Out| #[trigger]
            call_ensures(*f, (), out) && codec::may_encode(out, r),
{
    if args.len() == 0 {
        let out = choose|out: Out| #[trigger]
            call_ensures(*f, (), out) && codec::may_encode(out, r);
        if let Err(e) = r {
            codec::failures_to_encode_are_encoding_errors(out, e);
        }
    }
}

/// A handler with one argument refuses any other number of arguments, fails with a decoding error
/// where its argument cannot be decoded, and what it returns is the encoded result of its function
/// on the decoded argument.
pub proof fn unary_handlers_decode_and_encode<
    F: Fn(Arg) -> Out,
    Arg: DeserializeOwned,
    Out: Serialize,
>(f: &F, args: Seq<Vec<u8>>, r: Outcome)
    requires
        unary_outcome::<F, Arg, Out>(f, args, r),
    ensures
        args.len() != 1 ==> (r matches Err(e) && e is TaskFailed),
        args.len() == 1 ==> (r matches Err(e) ==> e is Decode || e is Encode),
        args.len() == 1 && undecodable::<Arg>(args[0]@) ==> (r matches Err(e) && e is Decode),
        r is Ok ==> exists|arg: Arg, out: Out|
            {
                &&& codec::may_decode(args[0]@, Ok(arg))
                &&& #[trigger] call_ensures(*f, (arg,), out)
                &&& codec::may_encode(out, r)
            },
{
    if args.len() == 1 {
        let arg = choose|arg: Result<Arg, MiniRayError>|
            {
                &&& #[trigger] codec::may_decode(args[0]@, arg)
                &&& match arg {
                    Err(e) => r == Err::<Vec<u8>, MiniRayError>(e),
                    Ok(arg) => exists|out: Out| #[trigger]
                        call_ensures(*f, (arg,), out) && codec::may_encode(out, r),
                }
            };
        match arg {
            Err(e) => {
                codec::failures_to_decode_are_decoding_errors::<Arg>(args[0]@, e);
            },
            Ok(arg) => {
                let out = choose|out: Out| #[trigger]
                    call_ensures(*f, (arg,), out) && codec::may_encode(out, r);
                if let Err(e) = r {
                    codec::failures_to_encode_are_encoding_errors(out, e);
                }
            },
        }
    }
}

/// A handler with two arguments refuses any other number of arguments, fails with a decoding error
/// where one of its arguments cannot be decoded, and what it returns is the encoded result of its
/// function on the decoded arguments, in order.
pub proof fn binary_handlers_decode_and_encode<
    F: Fn(A, B) -> Out,
    A: DeserializeOwned,
    B: DeserializeOwned,
    Out: Serialize,
>(f: &F, args: Seq<Vec<u8>>, r: Outcome)
    requires
        binary_outcome::<F, A, B, Out>(f, args, r),
    ensures
        args.len() != 2 ==> (r matches Err(e) && e is TaskFailed),
        args.len() == 2 ==> (r matches Err(e) ==> e is Decode || e is Encode),
        args.len() == 2 && (undecodable::<A>(args[0]@) || undecodable::<B>(args[1]@)) ==> (
        r matches Err(e) && e is Decode),
        r is Ok ==> exists|a: A, b: B, out: Out|
            {
                &&& codec::may_decode(args[0]@, Ok(a))
                &&& codec::may_decode(args[1]@, Ok(b))
                &&& #[trigger] call_ensures(*f, (a, b), out)
                &&& codec::may_encode(out, r)
            },
{
    if args.len() == 2 {
        let first = choose|first: Result<A, MiniRayError>|
            {
                &&& #[trigger] codec::may_decode(args[0]@, first)
                &&& match first {
                    Err(e) => r == Err::<Vec<u8>, MiniRayError>(e),
                    Ok(a) => exists|second: Result<B, MiniRayError>|
                        {
                            &&& #[trigger] codec::may_decode(args[1]@, second)
                            &&& match second {
                                Err(e) => r == Err::<Vec<u8>, MiniRayError>(e),
                                Ok(b) => exists|out: Out| #[trigger]
                                    call_ensures(*f, (a, b), out) && codec::may_encode(out, r),
                            }
                        },
                }
            };
        match first {
            Err(e) => {
                codec::failures_to_decode_are_decoding_errors::<A>(args[0]@, e);
            },
            Ok(a) => {
                let second = choose|second: Result<B, MiniRayError>|
                    {
                        &&& #[trigger] codec::may_decode(args[1]@, second)
                        &&& match second {
                            Err(e) => r == Err::<Vec<u8>, MiniRayError>(e),
                            Ok(b) => exists|out: Out| #[trigger]
                                call_ensures(*f, (a, b), out) && codec::may_encode(out, r),
                        }
                    };
                match second {
                    Err(e) => {
                        codec::failures_to_decode_are_decoding_errors::<B>(args[1]@, e);
                    },
                    Ok(b) => {
                        let out = choose|out: Out| #[trigger]
                            call_ensures(*f, (a, b), out) && codec::may_encode(out, r);
                        if let Err(e) = r {
                            codec::failures_to_encode_are_encoding_errors(out, e);
                        }
                    },
                }
            },
        }
    }
}

/// A handler with one argument that gets an encoded value runs its function on that value, where the
/// serialisation and the deserialisation of the value's type agree on it.
pub proof fn unary_handlers_run_on_what_was_encoded<
    F: Fn(Arg) -> Out,
    Arg: Serialize + DeserializeOwned,
    Out: Serialize,
>(f: &F, arg: Arg, args: Seq<Vec<u8>>, r: Outcome)
    requires
        args.len() == 1,
        codec::agrees(arg),
        codec::may_encode(arg, Ok(args[0])),
        unary_outcome::<F, Arg, Out>(f, args, r),
    ensures
        exists|out: Out| #[trigger] call_ensures(*f, (arg,), out) && codec::may_encode(out, r),
{
    assert forall|back: Result<Arg, MiniRayError>| #[trigger]
        codec::may_decode(args[0]@, back) implies back == Ok::<Arg, MiniRayError>(arg) by {
        codec::decoding_undoes_encoding(arg, args[0], back);
    }
}

/// A handler with two arguments that gets two encoded values runs its function on these values, in
/// order, where the serialisation and the deserialisation of their types agree on them.
pub proof fn binary_handlers_run_on_what_was_encoded<
    F: Fn(A, B) -> Out,
    A: Serialize + DeserializeOwned,
    B: Serialize + DeserializeOwned,
    Out: Serialize,
>(f: &F, a: A, b: B, args: Seq<Vec<u8>>, r: Outcome)
    requires
        args.len() == 2,
        codec::agrees(a),
        codec::agrees(b),
        codec::may_encode(a, Ok(args[0])),
        codec::may_encode(b, Ok(args[1])),
        binary_outcome::<F, A, B, Out>(f, args, r),
    ensures
        exists|out: Out| #[trigger] call_ensures(*f, (a, b), out) && codec::may_encode(out, r),
{
    assert forall|back: Result<A, MiniRayError>| #[trigger]
        codec::may_decode(args[0]@, back) implies back == Ok::<A, MiniRayError>(a) by {
        codec::decoding_undoes_encoding(a, args[0], back);
    }
    assert forall|back: Result<B, MiniRayError>| #[trigger]
        codec::may_decode(args[1]@, back) implies back == Ok::<B, MiniRayError>(b) by {
        codec::decoding_undoes_encoding(b, args[1], back);
    }
}

/// The functions that a worker can run, by name.
pub struct TaskRegistry {
    handlers: StringTable<Arc<Box<dyn TaskHandler>>>,
}

/// The error for a name that is taken.
pub open spec fn handler_exists(function_id: Seq<char>) -> ErrorView {
    ErrorView::TaskFailed("handler "@ + function_id + " is already registered"@)
}

/// The error for a name that is not registered.
pub open spec fn unknown_handler(function_id: Seq<char>) -> ErrorView {
    ErrorView::TaskFailed("unknown handler "@ + function_id)
}

impl TaskRegistry {
    /// Every registered handler can be called with any arguments.
    pub closed spec fn wf(&self) -> bool {
        &&& self.handlers.wf()
        &&& forall|id: Seq<char>, args: Vec<Vec<u8>>|
            self.handlers@.contains_key(id) ==> #[trigger] self.handlers@[id].accepts(args)
    }

    /// The registered names.
    pub closed spec fn ids(&self) -> Set<Seq<char>> {
        self.handlers@.dom()
    }

    /// Whether the handler of that name may return this for these arguments.
    pub closed spec fn allows(&self, id: Seq<char>, args: Vec<Vec<u8>>, r: Outcome) -> bool {
        self.handlers@[id].allows(args, r)
    }

    /// This registry has one handler more than another, under a new name; nothing else differs.
    pub open spec fn adds(&self, before: &Self, function_id: Seq<char>) -> bool {
        &&& !before.ids().contains(function_id)
        &&& self.ids() == before.ids().insert(function_id)
        &&& forall|id: Seq<char>, args: Vec<Vec<u8>>, r: Outcome|
            id != function_id ==> #[trigger] self.allows(id, args, r) == before.allows(id, args, r)
    }

    /// What running the handler of that name may return.
    pub open spec fn may_execute(&self, id: Seq<char>, args: Vec<Vec<u8>>, r: Outcome) -> bool {
        if self.ids().contains(id) {
            self.allows(id, args, r)
        } else {
            r matches Err(e) && e@ == unknown_handler(id)
        }
    }

    /// A registry without handlers.
    pub fn new() -> (registry: Self)
        ensures
            registry.wf(),
            registry.ids() == Set::<Seq<char>>::empty(),
    {
        let registry = TaskRegistry { handlers: StringTable::new() };
        assert(registry.ids() =~= Set::<Seq<char>>::empty());
        registry
    }

    /// How many handlers are registered.
    pub fn len(&self) -> (n: usize)
        requires
            self.wf(),
        ensures
            self.ids().finite(),
            n == self.ids().len(),
    {
        self.handlers.len()
    }

    /// Whether no handler is registered.
    pub fn is_empty(&self) -> (r: bool)
        requires
            self.wf(),
        ensures
            r == (self.ids() == Set::<Seq<char>>::empty()),
    {
        let n = self.handlers.len();
        proof {
            if n == 0 {
                self.ids().lemma_len0_is_empty();
            }
        }
        n == 0
    }

    /// Whether a handler of that name is registered.
    pub fn contains(&self, function_id: &str) -> (r: bool)
        requires
            self.wf(),
        ensures
            r == self.ids().contains(function_id@),
    {
        self.handlers.contains_key(function_id)
    }

    fn enter(&mut self, function_id: &str, handler: Arc<Box<dyn TaskHandler>>)
        requires
            old(self).wf(),
            !old(self).ids().contains(function_id@),
            forall|args: Vec<Vec<u8>>| #[trigger] handler.accepts(args),
        ensures
            final(self).wf(),
            final(self).adds(old(self), function_id@),
            forall|args: Vec<Vec<u8>>, r: Outcome| #[trigger]
                final(self).allows(function_id@, args, r) == handler.allows(args, r),
    {
        self.handlers.insert_new(function_id.to_owned(), handler);
        assert(self.ids() =~= old(self).ids().insert(function_id@));
    }

    /// Registers a handler of raw bytes under a name that is not taken.
    pub fn register_raw<F>(&mut self, function_id: &str, handler: F) -> (r: Result<
        (),
        MiniRayError,
    >) where F: Fn(Vec<Vec<u8>>) -> Outcome + Send + Sync + 'static
        requires
            old(self).wf(),
            forall|args: Vec<Vec<u8>>| #[trigger] call_requires(handler, (args,)),
        ensures
            final(self).wf(),
            match r {
                Ok(_) => {
                    &&& final(self).adds(old(self), function_id@)
                    &&& forall|args: Vec<Vec<u8>>, out: Outcome| #[trigger]
                        final(self).allows(function_id@, args, out) <==> call_ensures(
                            handler,
                            (args,),
                            out,
                        )
                },
                Err(e) => old(self).ids().contains(function_id@) && *final(self) == *old(self)
                    && e@ == handler_exists(function_id@),
            },
    {
        if self.handlers.contains_key(function_id) {
            return Err(
                MiniRayError::TaskFailed(
                    "handler ".to_owned().concat(function_id).concat(" is already registered"),
                ),
            );
        }
        self.enter(
            function_id,
            Arc::new(Box::new(handler)),
        );
        Ok(())
    }

    /// Registers a function without arguments.
    pub fn register_nullary<F, Out>(&mut self, function_id: &str, handler: F) -> (r: Result<
        (),
        MiniRayError,
    >) where F: Fn() -> Out + Send + Sync + 'static, Out: Serialize
        requires
            old(self).wf(),
            call_requires(handler, ()),
        ensures
            final(self).wf(),
            match r {
                Ok(_) => {
                    &&& final(self).adds(old(self), function_id@)
                    &&& forall|args: Vec<Vec<u8>>, out: Outcome| #[trigger]
                        final(self).allows(function_id@, args, out) ==> nullary_outcome(
                            &handler,
                            args@,
                            out,
                        )
                },
                Err(e) => old(self).ids().contains(function_id@) && *final(self) == *old(self)
                    && e@ == handler_exists(function_id@),
            },
    {
        let raw = move |args: Vec<Vec<u8>>| -> (out: Outcome)
            ensures
                nullary_outcome::<F, Out>(&handler, args@, out),
            {
                match expect_arg_count(args.as_slice(), 0) {
                    Err(e) => Err(e),
                    Ok(_) => {
                        let value = handler();
                        encode(&value)
                    },
                }
            };
        self.register_raw(function_id, raw)
    }

    /// Registers a function of one argument.
    pub fn register_unary<F, Arg, Out>(&mut self, function_id: &str, handler: F) -> (r: Result<
        (),
        MiniRayError,
    >) where F: Fn(Arg) -> Out + Send + Sync + 'static, Arg: DeserializeOwned, Out: Serialize
        requires
            old(self).wf(),
            forall|arg: Arg| #[trigger] call_requires(handler, (arg,)),
        ensures
            final(self).wf(),
            match r {
                Ok(_) => {
                    &&& final(self).adds(old(self), function_id@)
                    &&& forall|args: Vec<Vec<u8>>, out: Outcome| #[trigger]
                        final(self).allows(function_id@, args, out) ==> unary_outcome(
                            &handler,
                            args@,
                            out,
                        )
                },
                Err(e) => old(self).ids().contains(function_id@) && *final(self) == *old(self)
                    && e@ == handler_exists(function_id@),
            },
    {
        let raw = move |args: Vec<Vec<u8>>| -> (out: Outcome)
            ensures
                unary_outcome::<F, Arg, Out>(&handler, args@, out),
            {
                match expect_arg_count(args.as_slice(), 1) {
                    Err(e) => Err(e),
                    Ok(_) => match decode::<Arg>(args[0].as_slice()) {
                        Err(e) => Err(e),
                        Ok(arg) => {
                            let value = handler(arg);
                            encode(&value)
                        },
                    },
                }
            };
        self.register_raw(function_id, raw)
    }

    /// Registers a function of two arguments.
    pub fn register_binary<F, A, B, Out>(&mut self, function_id: &str, handler: F) -> (r: Result<
        (),
        MiniRayError,
    >) where
        F: Fn(A, B) -> Out + Send + Sync + 'static,
        A: DeserializeOwned,
        B: DeserializeOwned,
        Out: Serialize,

        requires
            old(self).wf(),
            forall|a: A, b: B| #[trigger] call_requires(handler, (a, b)),
        ensures
            final(self).wf(),
            match r {
                Ok(_) => {
                    &&& final(self).adds(old(self), function_id@)
                    &&& forall|args: Vec<Vec<u8>>, out: Outcome| #[trigger]
                        final(self).allows(function_id@, args, out) ==> binary_outcome(
                            &handler,
                            args@,
                            out,
                        )
                },
                Err(e) => old(self).ids().contains(function_id@) && *final(self) == *old(self)
                    && e@ == handler_exists(function_id@),
            },
    {
        let raw = move |args: Vec<Vec<u8>>| -> (out: Outcome)
            ensures
                binary_outcome::<F, A, B, Out>(&handler, args@, out),
            {
                match expect_arg_count(args.as_slice(), 2) {
                    Err(e) => Err(e),
                    Ok(_) => match decode::<A>(args[0].as_slice()) {
                        Err(e) => Err(e),
                        Ok(first) => match decode::<B>(args[1].as_slice()) {
                            Err(e) => Err(e),
                            Ok(second) => {
                                let value = handler(first, second);
                                encode(&value)
                            },
                        },
                    },
                }
            };
        self.register_raw(function_id, raw)
    }

    /// Runs the handler of that name.
    pub fn execute(&self, function_id: &str, args: Vec<Vec<u8>>) -> (r: Outcome)
        requires
            self.wf(),
        ensures
            self.may_execute(function_id@, args, r),
    {
        match self.handlers.get(function_id) {
            None => Err(MiniRayError::TaskFailed("unknown handler ".to_owned().concat(function_id))),
            Some(handler) => handler.run(args),
        }
    }
}

impl Default for TaskRegistry {
    fn default() -> (registry: Self)
        ensures
            registry.wf(),
            registry.ids() == Set::<Seq<char>>::empty(),
    {
        Self::new()
    }
}

impl Clone for TaskRegistry {
    fn clone(&self) -> (copy: Self)
        ensures
            self.wf() ==> {
                &&& copy.wf()
                &&& copy.ids() == self.ids()
                &&& forall|id: Seq<char>, args: Vec<Vec<u8>>, r: Outcome| #[trigger]
                    copy.allows(id, args, r) == self.allows(id, args, r)
            },
    {
        TaskRegistry { handlers: self.handlers.clone() }
    }
}

/// The errors of a registry say which name is taken or unknown, and how many arguments were expected
/// and how many came.
pub proof fn registry_errors_say_what_is_wrong(function_id: Seq<char>, expected: nat, got: nat)
    ensures
        handler_exists(function_id) == ErrorView::TaskFailed(
            "handler "@ + function_id + " is already registered"@,
        ),
        unknown_handler(function_id) == ErrorView::TaskFailed("unknown handler "@ + function_id),
        wrong_arg_count(expected, got) == ErrorView::TaskFailed(
            "expected "@ + text::decimal_text(expected) + " args, got "@ + text::decimal_text(got),
        ),
{
}

/// A call with the wrong number of arguments is answered with both numbers, whatever the function.
pub proof fn wrong_numbers_of_arguments_are_refused<
    F: Fn() -> Out,
    G: Fn(A) -> Out,
    H: Fn(A, B) -> Out,
    A: DeserializeOwned,
    B: DeserializeOwned,
    Out: Serialize,
>(f: &F, g: &G, h: &H, args: Seq<Vec<u8>>, r: Outcome)
    ensures
        nullary_outcome::<F, Out>(f, args, r) && args.len() != 0 ==> (r matches Err(e) && e@
            == ErrorView::TaskFailed(
            "expected "@ + text::decimal_text(0) + " args, got "@ + text::decimal_text(args.len()),
        )),
        unary_outcome::<G, A, Out>(g, args, r) && args.len() != 1 ==> (r matches Err(e) && e@
            == ErrorView::TaskFailed(
            "expected "@ + text::decimal_text(1) + " args, got "@ + text::decimal_text(args.len()),
        )),
        binary_outcome::<H, A, B, Out>(h, args, r) && args.len() != 2 ==> (r matches Err(e) && e@
            == ErrorView::TaskFailed(
            "expected "@ + text::decimal_text(2) + " args, got "@ + text::decimal_text(args.len()),
        )),
{
}

impl TaskRegistry {
    /// Running a name gives what its own handler may return for these arguments, and an error that
    /// names it where it is not registered.
    pub proof fn names_run_their_own_handlers(
        &self,
        id: Seq<char>,
        args: Vec<Vec<u8>>,
        r: Outcome,
    )
        requires
            self.may_execute(id, args, r),
        ensures
            self.ids().contains(id) ==> self.allows(id, args, r),
            !self.ids().contains(id) ==> (r matches Err(e) && e@ == ErrorView::TaskFailed(
                "unknown handler "@ + id,
            )),
    {
    }

    /// Registering adds one name, which was not taken; every other name runs what it ran before.
    pub proof fn registering_adds_one_name(
        &self,
        before: &Self,
        function_id: Seq<char>,
        id: Seq<char>,
        args: Vec<Vec<u8>>,
        r: Outcome,
    )
        requires
            self.adds(before, function_id),
        ensures
            !before.ids().contains(function_id),
            self.ids().contains(id) <==> before.ids().contains(id) || id == function_id,
            id != function_id ==> self.allows(id, args, r) == before.allows(id, args, r),
    {
    }
}

/// An argument that cannot be decoded is reported with the reason; of two, the first one.
pub proof fn the_first_undecodable_argument_is_reported<
    G: Fn(A) -> Out,
    H: Fn(A, B) -> Out,
    A: DeserializeOwned,
    B: DeserializeOwned,
    Out: Serialize,
>(g: &G, h: &H, args: Seq<Vec<u8>>, r: Outcome)
    ensures
        unary_outcome::<G, A, Out>(g, args, r) && args.len() == 1 && undecodable::<A>(args[0]@) ==> (
        r matches Err(e) && codec::may_decode::<A>(args[0]@, Err(e))),
        binary_outcome::<H, A, B, Out>(h, args, r) && args.len() == 2 && undecodable::<A>(args[0]@)
            ==> (r matches Err(e) && codec::may_decode::<A>(args[0]@, Err(e))),
        binary_outcome::<H, A, B, Out>(h, args, r) && args.len() == 2 && undecodable::<B>(args[1]@)
            ==> (r matches Err(e) && (codec::may_decode::<A>(args[0]@, Err(e))
            || codec::may_decode::<B>(args[1]@, Err(e)))),
        binary_outcome::<H, A, B, Out>(h, args, r) && args.len() == 2 && undecodable::<B>(args[1]@)
            && (forall|first: Result<A, MiniRayError>| #[trigger]
            codec::may_decode(args[0]@, first) ==> first is Ok) ==> (r matches Err(e)
            && codec::may_decode::<B>(args[1]@, Err(e))),
{
}

} // verus!
