//! How a bitcoind node is reached.

use vstd::prelude::*;

verus! {

#[derive(Clone, Debug, PartialEq, Eq)]
pub struct RpcArgs {
    /// RPC URL
    pub url: String,
    /// RPC auth username
    pub rpc_user: Option<String>,
    /// RPC auth password
    pub rpc_password: Option<String>,
}

/// How to authenticate with the node.
#[derive(Clone, Debug, PartialEq, Eq)]
pub enum RpcAuth {
    Anonymous,
    UserPass(String, String),
}

impl RpcArgs {
    /// A user name and a password are given together or not at all.
    pub open spec fn credentials_paired(&self) -> bool {
        self.rpc_user is Some <==> self.rpc_password is Some
    }

    /// What is wrong with the credentials, if one of the two is missing.
    pub fn missing_credential(&self) -> (r: Option<&'static str>)
        ensures
            r is None <==> self.credentials_paired(),
            r matches Some(m) ==> m@ == if self.rpc_user is Some {
                "rpc auth: missing rpc_pass"@
            } else {
                "rpc auth: missing rpc_user"@
            },
    {
        match (&self.rpc_user, &self.rpc_password) {
            (Some(_), None) => Some("rpc auth: missing rpc_pass"),
            (None, Some(_)) => Some("rpc auth: missing rpc_user"),
            _ => None,
        }
    }

    /// The URL and the credentials with which a client is made.
    pub fn new_client(&self) -> (r: (String, RpcAuth))
        requires
            self.credentials_paired(),
        ensures
            r.0@ == self.url@,
            match (self.rpc_user, self.rpc_password) {
                (Some(user), Some(pass)) => r.1 matches RpcAuth::UserPass(u, p) && u@ == user@
                    && p@ == pass@,
                _ => r.1 is Anonymous,
            },
    {
        let auth: RpcAuth = match (&self.rpc_user, &self.rpc_password) {
            (Some(user), Some(pass)) => RpcAuth::UserPass(user.clone(), pass.clone()),
            _ => RpcAuth::Anonymous,
        };
        (self.url.clone(), auth)
    }
}

/// Credentials are complained of if and only if one of the two is given without the other, and
/// the complaint names the one that is missing.
pub proof fn law_missing_credential(args: RpcArgs, r: Option<&'static str>)
    requires
        call_ensures(RpcArgs::missing_credential, (&args,), r),
    ensures
        args.rpc_user is Some && args.rpc_password is Some ==> r is None,
        args.rpc_user is None && args.rpc_password is None ==> r is None,
        args.rpc_user is Some && args.rpc_password is None ==> (r matches Some(m) && m@
            == "rpc auth: missing rpc_pass"@),
        args.rpc_user is None && args.rpc_password is Some ==> (r matches Some(m) && m@
            == "rpc auth: missing rpc_user"@),
{
}

/// A client is made with the URL as it was given, and with the user and the password if they
/// were given.
pub proof fn law_new_client(args: RpcArgs, r: (String, RpcAuth))
    requires
        call_ensures(RpcArgs::new_client, (&args,), r),
    ensures
        r.0@ == args.url@,
        args.rpc_user matches Some(user) ==> args.rpc_password matches Some(pass) ==> (
        r.1 matches RpcAuth::UserPass(u, p) && u@ == user@ && p@ == pass@),
        args.rpc_user is None && args.rpc_password is None ==> r.1 is Anonymous,
{
}

} // verus!
