//! The command layer: the four commands a host server exposes over the
//! store — set, get, del, and keys.
//!
//! Each command receives the full argument vector of the invocation, the
//! command's own name included as argument zero. It first checks the
//! command's fixed arity, then decodes the positional arguments, and only
//! then touches the store. A mutating command that completes reports, in its
//! outcome, that the host must replicate the invocation; a read-only command
//! never does.

use vstd::prelude::*;

use crate::replication::Signal;
use crate::replication::apply_signal;
use crate::store::Store;

verus! {

/// One positional argument as the host hands it over: either a string the
/// host could decode, or a token it could not.
#[derive(Debug)]
pub enum Arg {
    Text(String),
    Undecodable,
}

/// Why an invocation was refused. Every error is terminal for that
/// invocation alone and leaves the store untouched.
#[derive(Debug)]
pub enum CmdError {
    /// The number of arguments does not match the command's fixed arity.
    WrongArity,
    /// A positional argument could not be decoded as a string.
    Decoding,
    /// The store's lock could not be acquired; the operation was abandoned
    /// with no partial effect. The command layer itself never raises this:
    /// it exists for the surrounding process that guards the store.
    Lock,
}

/// A reply to the caller, in the shape the command declares.
#[derive(Debug)]
pub enum Reply {
    /// A simple status line, such as "OK".
    Status(String),
    /// A stored value.
    Bulk(String),
    /// The absent marker: the key holds no value.
    Null,
    /// An integer reply.
    Int(i64),
    /// An array of keys.
    Keys(Vec<String>),
}

/// What a completed command hands back: the reply for the caller, and
/// whether the host must replicate the invocation verbatim.
#[derive(Debug)]
pub struct Outcome {
    pub reply: Reply,
    pub replicate: bool,
}

impl CmdError {
    /// A short description of the error, for the reply to the caller.
    pub fn message(&self) -> (r: String)
        ensures
            *self is WrongArity ==> r@ == "wrong number of arguments"@,
            *self is Decoding ==> r@ == "argument is not a valid string"@,
            *self is Lock ==> r@ == "failed to acquire the store lock"@,
    {
        match self {
            CmdError::WrongArity => "wrong number of arguments".to_owned(),
            CmdError::Decoding => "argument is not a valid string".to_owned(),
            CmdError::Lock => "failed to acquire the store lock".to_owned(),
        }
    }
}

/// The set command, `set key value`: arity exactly three counting the
/// command name. On success the value is stored under the key, superseding
/// any earlier value, the reply is the status "OK", and the invocation is
/// marked for replication.
pub fn secure_set(store: &mut Store, args: Vec<Arg>) -> (r: Result<Outcome, CmdError>)
    requires
        old(store).wf(),
    ensures
        final(store).wf(),
        args@.len() != 3 ==> (r matches Err(CmdError::WrongArity) && final(store)@
            == old(store)@),
        args@.len() == 3 && !(args@[1] is Text && args@[2] is Text) ==> (r matches Err(
            CmdError::Decoding,
        ) && final(store)@ == old(store)@),
        args@.len() == 3 && args@[1] is Text && args@[2] is Text ==> ({
            &&& final(store)@ == apply_signal(
                old(store)@,
                Signal::Put(args@[1]->Text_0@, args@[2]->Text_0@),
            )
            &&& (r matches Ok(o) && o.replicate && (o.reply matches Reply::Status(s) && s@
                == "OK"@))
        }),
{
    if args.len() != 3 {
        return Err(CmdError::WrongArity);
    }
    let key: String = match &args[1] {
        Arg::Text(s) => s.clone(),
        Arg::Undecodable => {
            return Err(CmdError::Decoding);
        },
    };
    let value: String = match &args[2] {
        Arg::Text(s) => s.clone(),
        Arg::Undecodable => {
            return Err(CmdError::Decoding);
        },
    };
    store.put(key, value);
    Ok(Outcome { reply: Reply::Status("OK".to_owned()), replicate: true })
}

/// The get command, `get key`: arity exactly two. It never mutates and is
/// never replicated. The reply is the stored value, or the absent marker
/// when the key holds none — absence is not an error.
pub fn secure_get(store: &Store, args: Vec<Arg>) -> (r: Result<Outcome, CmdError>)
    requires
        store.wf(),
    ensures
        args@.len() != 2 ==> r matches Err(CmdError::WrongArity),
        args@.len() == 2 && !(args@[1] is Text) ==> r matches Err(CmdError::Decoding),
        args@.len() == 2 && args@[1] is Text ==> (r matches Ok(o) && !o.replicate && {
            if store@.contains_key(args@[1]->Text_0@) {
                o.reply matches Reply::Bulk(v) && v@ == store@[args@[1]->Text_0@]
            } else {
                o.reply is Null
            }
        }),
{
    if args.len() != 2 {
        return Err(CmdError::WrongArity);
    }
    let key: String = match &args[1] {
        Arg::Text(s) => s.clone(),
        Arg::Undecodable => {
            return Err(CmdError::Decoding);
        },
    };
    match store.get(&key) {
        Some(value) => Ok(Outcome { reply: Reply::Bulk(value.clone()), replicate: false }),
        None => Ok(Outcome { reply: Reply::Null, replicate: false }),
    }
}

/// The del command, `del key`: arity exactly two. On success the key is
/// removed if present; the reply is 1 when a removal happened and 0 when
/// the key was absent, never an error for a missing key. Every completed
/// del is marked for replication, whether or not it removed anything.
pub fn secure_del(store: &mut Store, args: Vec<Arg>) -> (r: Result<Outcome, CmdError>)
    requires
        old(store).wf(),
    ensures
        final(store).wf(),
        args@.len() != 2 ==> (r matches Err(CmdError::WrongArity) && final(store)@
            == old(store)@),
        args@.len() == 2 && !(args@[1] is Text) ==> (r matches Err(CmdError::Decoding)
            && final(store)@ == old(store)@),
        args@.len() == 2 && args@[1] is Text ==> ({
            &&& final(store)@ == apply_signal(old(store)@, Signal::Del(args@[1]->Text_0@))
            &&& (r matches Ok(o) && o.replicate && (o.reply matches Reply::Int(n) && n == (
            if old(store)@.contains_key(args@[1]->Text_0@) {
                1int
            } else {
                0int
            })))
        }),
{
    if args.len() != 2 {
        return Err(CmdError::WrongArity);
    }
    let key: String = match &args[1] {
        Arg::Text(s) => s.clone(),
        Arg::Undecodable => {
            return Err(CmdError::Decoding);
        },
    };
    let removed = store.delete(&key);
    let n: i64 = if removed {
        1
    } else {
        0
    };
    Ok(Outcome { reply: Reply::Int(n), replicate: true })
}

/// The keys command, `keys`: arity exactly one, the command name and
/// nothing else. It never mutates and is never replicated. The reply is an
/// array of all stored keys, each exactly once, in no promised order.
pub fn secure_keys(store: &Store, args: Vec<Arg>) -> (r: Result<Outcome, CmdError>)
    requires
        store.wf(),
    ensures
        args@.len() != 1 ==> r matches Err(CmdError::WrongArity),
        args@.len() == 1 ==> (r matches Ok(o) && !o.replicate && (o.reply matches Reply::Keys(
            ks,
        ) && {
            &&& forall|i: int, j: int| 0 <= i < j < ks@.len() ==> #[trigger] ks@[i]@
                != #[trigger] ks@[j]@
            &&& forall|i: int| 0 <= i < ks@.len() ==> store@.contains_key(#[trigger] ks@[i]@)
            &&& forall|k: Seq<char>| #[trigger] store@.contains_key(k) ==> exists|i: int|
                0 <= i < ks@.len() && #[trigger] ks@[i]@ == k
        })),
{
    if args.len() != 1 {
        return Err(CmdError::WrongArity);
    }
    let keys = store.list_keys();
    Ok(Outcome { reply: Reply::Keys(keys), replicate: false })
}

} // verus!
