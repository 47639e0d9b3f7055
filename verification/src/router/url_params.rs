//! The path parameters that the request extractors read: each extractor
//! names the parameter it wants, and takes the first one of that name.
use vstd::prelude::*;
use vstd::string::StringExecFns;
use core::marker::PhantomData;

verus! {

/// A type that names the path parameter it is read from.
pub trait UrlName {
    /// The parameter's name.
    spec fn key_spec() -> Seq<char>;

    /// The parameter's name.
    fn url_key() -> (res: &'static str)
        ensures
            res@ == Self::key_spec();
}

/// The role of a request, read from the `roleid` parameter.
pub struct RoleFromId;

/// The message of a request, read from the `messageid` parameter.
pub struct MessageId;

/// The channel of a request, read from the `channelid` parameter.
pub struct ChannelFromId;

/// The server of a request, read from the `serverid` parameter.
pub struct ServerFromId;

impl UrlName for RoleFromId {
    open spec fn key_spec() -> Seq<char> {
        "roleid"@
    }

    fn url_key() -> (res: &'static str) {
        "roleid"
    }
}

impl UrlName for MessageId {
    open spec fn key_spec() -> Seq<char> {
        "messageid"@
    }

    fn url_key() -> (res: &'static str) {
        "messageid"
    }
}

impl UrlName for ChannelFromId {
    open spec fn key_spec() -> Seq<char> {
        "channelid"@
    }

    fn url_key() -> (res: &'static str) {
        "channelid"
    }
}

impl UrlName for ServerFromId {
    open spec fn key_spec() -> Seq<char> {
        "serverid"@
    }

    fn url_key() -> (res: &'static str) {
        "serverid"
    }
}

/// The value of the path parameter that `T` names.
pub struct UrlGetter<T: UrlName>(pub String, pub PhantomData<T>);

/// The position of the first parameter at or after `i` named `key`.
pub open spec fn param_from(params: Seq<(String, String)>, key: Seq<char>, i: nat) -> Option<int>
    decreases params.len() - i,
{
    if i >= params.len() {
        None
    } else if params[i as int].0@ == key {
        Some(i as int)
    } else {
        param_from(params, key, i + 1)
    }
}

/// The error when the parameter is missing.
pub open spec fn missing_param_error() -> Seq<char> {
    "No message id"@
}

impl<T: UrlName> UrlGetter<T> {
    /// The name of the parameter.
    pub fn get_key() -> (res: String)
        ensures
            res@ == T::key_spec(),
    {
        String::from_str(T::url_key())
    }

    /// The parameter `T` names, among the request's path parameters (in
    /// the route's order): the value of the first one of that name.
    ///
    /// # Errors
    /// `No message id` when no parameter has that name.
    pub fn from_params(params: &Vec<(String, String)>) -> (res: Result<Self, String>)
        ensures
            res matches Ok(g) ==> param_from(params@, T::key_spec(), 0) matches Some(i) && g.0@ == params@[i].1@,
            res matches Err(e) ==> param_from(params@, T::key_spec(), 0) is None && e@ == missing_param_error(),
    {
        let key = Self::get_key();
        let mut i: usize = 0;
        while i < params.len()
            invariant
                i <= params@.len(),
                key@ == T::key_spec(),
                param_from(params@, T::key_spec(), 0) == param_from(params@, T::key_spec(), i as nat),
            decreases params@.len() - i,
        {
            if params[i].0 == key {
                assert(param_from(params@, T::key_spec(), i as nat) == Some(i as int));
                return Ok(UrlGetter(params[i].1.clone(), PhantomData));
            }
            i = i + 1;
        }
        Err(String::from_str("No message id"))
    }
}

} // verus!
