use crate::bytes;
use crate::error::Error;
use vstd::prelude::*;
use vstd::string::StringSliceAdditionalSpecFns;

verus! {

/// The request methods this library recognises.
#[derive(Debug, Clone, Copy, PartialEq, Eq, Structural)]
pub enum Method {
    Connect,
    Delete,
    Get,
    Head,
    Options,
    Patch,
    Post,
    Put,
    Trace,
}

impl Method {
    /// The method's name as it is written in a start line.
    pub open spec fn name(self) -> &'static str {
        match self {
            Method::Connect => "CONNECT",
            Method::Delete => "DELETE",
            Method::Get => "GET",
            Method::Head => "HEAD",
            Method::Options => "OPTIONS",
            Method::Patch => "PATCH",
            Method::Post => "POST",
            Method::Put => "PUT",
            Method::Trace => "TRACE",
        }
    }

    /// The bytes of the method's name.
    pub open spec fn token(self) -> Seq<u8> {
        self.name().spec_bytes()
    }

    /// The method whose name is exactly `token`, letter case included, if
    /// there is one.
    pub open spec fn with_token(token: Seq<u8>) -> Option<Method> {
        if exists|method: Method| method.token() == token {
            Some(choose|method: Method| method.token() == token)
        } else {
            None
        }
    }

    /// Two methods with the same name are the same method.
    pub proof fn lemma_token_injective(self, other: Method)
        requires
            self.token() == other.token(),
        ensures
            self == other,
    {
        broadcast use vstd::utf8::encode_utf8_decode_utf8;

        reveal_strlit("CONNECT");
        reveal_strlit("DELETE");
        reveal_strlit("GET");
        reveal_strlit("HEAD");
        reveal_strlit("OPTIONS");
        reveal_strlit("PATCH");
        reveal_strlit("POST");
        reveal_strlit("PUT");
        reveal_strlit("TRACE");
        assert(vstd::utf8::decode_utf8(self.token()) == self.name()@);
        assert(vstd::utf8::decode_utf8(other.token()) == other.name()@);
        assert(self.name()@.len() == other.name()@.len());
        assert(self.name()@[0] == other.name()@[0]);
    }

    /// Every method name is made of upper-case letters.
    pub proof fn lemma_token_upper_case(self)
        ensures
            self.token().len() > 0,
            forall|i: int| 0 <= i < self.token().len() ==> 65 <= #[trigger] self.token()[i] <= 90,
    {
        reveal_strlit("CONNECT");
        reveal_strlit("DELETE");
        reveal_strlit("GET");
        reveal_strlit("HEAD");
        reveal_strlit("OPTIONS");
        reveal_strlit("PATCH");
        reveal_strlit("POST");
        reveal_strlit("PUT");
        reveal_strlit("TRACE");
        vstd::string::is_ascii_spec_bytes(self.name());
    }

    /// Looking a method up by its own name gives that method back.
    pub proof fn lemma_with_token_inverts_token(self)
        ensures
            Method::with_token(self.token()) == Some(self),
    {
        let found = choose|method: Method| method.token() == self.token();
        found.lemma_token_injective(self);
    }

    /// The method's name as it is written in a start line.
    pub fn as_str(&self) -> (name: &'static str)
        ensures
            name@ == self.name()@,
    {
        match self {
            Method::Connect => "CONNECT",
            Method::Delete => "DELETE",
            Method::Get => "GET",
            Method::Head => "HEAD",
            Method::Options => "OPTIONS",
            Method::Patch => "PATCH",
            Method::Post => "POST",
            Method::Put => "PUT",
            Method::Trace => "TRACE",
        }
    }

    /// The method that `input` names, or `Error::InvalidMethod` when it names
    /// none. The comparison is exact: `get` is not `GET`.
    pub fn from_str(input: &str) -> (found: Result<Method, Error>)
        ensures
            found == match Method::with_token(input.spec_bytes()) {
                Some(method) => Ok::<Method, Error>(method),
                None => Err(Error::InvalidMethod),
            },
    {
        let token = input.as_bytes();
        let found = if bytes::equal(token, "CONNECT".as_bytes()) {
            Some(Method::Connect)
        } else if bytes::equal(token, "DELETE".as_bytes()) {
            Some(Method::Delete)
        } else if bytes::equal(token, "GET".as_bytes()) {
            Some(Method::Get)
        } else if bytes::equal(token, "HEAD".as_bytes()) {
            Some(Method::Head)
        } else if bytes::equal(token, "OPTIONS".as_bytes()) {
            Some(Method::Options)
        } else if bytes::equal(token, "PATCH".as_bytes()) {
            Some(Method::Patch)
        } else if bytes::equal(token, "POST".as_bytes()) {
            Some(Method::Post)
        } else if bytes::equal(token, "PUT".as_bytes()) {
            Some(Method::Put)
        } else if bytes::equal(token, "TRACE".as_bytes()) {
            Some(Method::Trace)
        } else {
            None
        };
        match found {
            Some(method) => {
                proof {
                    method.lemma_with_token_inverts_token();
                }
                Ok(method)
            },
            None => {
                assert forall|method: Method| method.token() != token@ by {
                    match method {
                        Method::Connect => {},
                        Method::Delete => {},
                        Method::Get => {},
                        Method::Head => {},
                        Method::Options => {},
                        Method::Patch => {},
                        Method::Post => {},
                        Method::Put => {},
                        Method::Trace => {},
                    }
                }
                Err(Error::InvalidMethod)
            },
        }
    }
}

} // verus!
