use vstd::prelude::*;
use vstd::string::StrSliceExecFns;
use vstd::string::StringExecFns;
use crate::capability::Function;
use crate::errors::InvocationError;
use crate::numfmt::{dec_int, i64_to_dec};
use crate::parse::parse_decimal;
use crate::registrar::PluginRegistrar;
use crate::registry::PluginModule;

verus! {

/// The query for one random integer in `[min, max]`, as the example
/// plugin derives it from its arguments.
#[derive(Debug, PartialEq)]
pub struct RequestInfo {
    pub min: i64,
    pub max: i64,
}

/// The URL that asks the external service for one integer in
/// `[min, max]`, in plain-text decimal form.
pub open spec fn request_url(min: int, max: int) -> Seq<char> {
    "https://www.random.org/integers/?num=1&min="@ + dec_int(min) + "&max="@ + dec_int(max)
        + "&col=1&base=10&format=plain"@
}

impl RequestInfo {
    /// Renders the request as its URL.
    pub fn format(&self) -> (r: String)
        ensures
            r@ == request_url(self.min as int, self.max as int),
    {
        let mut s = String::from_str("https://www.random.org/integers/?num=1&min=");
        let min_digits = i64_to_dec(self.min);
        s.append(min_digits.as_str());
        s.append("&max=");
        let max_digits = i64_to_dec(self.max);
        s.append(max_digits.as_str());
        s.append("&col=1&base=10&format=plain");
        proof {
            assert(s@ =~= request_url(self.min as int, self.max as int));
        }
        s
    }
}

/// Derives the request bounds from the call's arguments: none means
/// `[0, 100]`, one sets the upper bound, two set both bounds, and more
/// than two are refused.
pub fn parse_args(args: &[i64]) -> (r: Result<RequestInfo, InvocationError>)
    ensures
        args@.len() == 0 ==> r == Ok::<RequestInfo, InvocationError>(
            (RequestInfo { min: 0, max: 100 }),
        ),
        args@.len() == 1 ==> r == Ok::<RequestInfo, InvocationError>(
            (RequestInfo { min: 0, max: args@[0] }),
        ),
        args@.len() == 2 ==> r == Ok::<RequestInfo, InvocationError>(
            (RequestInfo { min: args@[0], max: args@[1] }),
        ),
        args@.len() > 2 ==> (r matches Err(InvocationError::Other { msg }) && msg@
            == "0, 1, or 2 arguments are required"@),
{
    match args.len() {
        0 => Ok(RequestInfo { min: 0, max: 100 }),
        1 => Ok(RequestInfo { min: 0, max: args[0] }),
        2 => Ok(RequestInfo { min: args[0], max: args[1] }),
        _ => Err(
            InvocationError::Other {
                msg: String::from_str("0, 1, or 2 arguments are required"),
            },
        ),
    }
}

/// Relies on reqwest::blocking::get: sends the HTTP request for `url` and
/// waits for the response. The outcome depends on the network, so nothing
/// is promised of it; a transport failure is reported as its message.
#[verifier::external_body]
fn http_get(url: &String) -> (r: Result<reqwest::blocking::Response, String>) {
    match reqwest::blocking::get(url.as_str()) {
        Ok(resp) => Ok(resp),
        Err(e) => Err(e.to_string()),
    }
}

/// An HTTP response, carried opaquely between the two calls that the
/// external client splits a fetch into.
#[verifier::external_type_specification]
#[verifier::external_body]
pub struct ExResponse(reqwest::blocking::Response);

/// Relies on reqwest::blocking::Response::text: reads the response body
/// as text. The body is whatever the external service sent, so nothing is
/// promised of it; a read failure is reported as its message.
#[verifier::external_body]
fn response_text(resp: reqwest::blocking::Response) -> (r: Result<String, String>) {
    match resp.text() {
        Ok(t) => Ok(t),
        Err(e) => Err(e.to_string()),
    }
}

/// Issues the request and parses the plain-text decimal body. The
/// external service alone decides the outcome, but whatever happens: a
/// success carries a value inside the requested bounds, and every
/// failure — transport, an unparsable body, or a body outside the
/// bounds — is of the `Other` kind, reported and not retried.
fn fetch(request: RequestInfo) -> (r: Result<i64, InvocationError>)
    ensures
        match r {
            Ok(v) => request.min <= v && v <= request.max,
            Err(e) => e is Other,
        },
{
    let url = request.format();
    let parsed = match http_get(&url) {
        Ok(resp) => match response_text(resp) {
            Ok(body) => parse_decimal(body.as_str()),
            Err(msg) => Err(InvocationError::Other { msg }),
        },
        Err(msg) => Err(InvocationError::Other { msg }),
    };
    match parsed {
        Ok(v) => {
            if request.min <= v && v <= request.max {
                Ok(v)
            } else {
                Err(
                    InvocationError::Other {
                        msg: String::from_str("response out of the requested bounds"),
                    },
                )
            }
        },
        Err(e) => Err(e),
    }
}

/// The example plugin's one callable: asks an external service for a
/// random integer within the bounds its arguments select.
pub struct Random;

impl Function for Random {
    /// Zero, one or two arguments select the bounds; the external request
    /// decides the rest, and its failure is reported, not retried. A
    /// success always lies within the selected bounds; every failure is
    /// of the `Other` kind, the exact refusal when more than two
    /// arguments are given.
    fn call(&self, args: &[i64]) -> (r: Result<i64, InvocationError>)
        ensures
            args@.len() > 2 ==> (r matches Err(InvocationError::Other { msg }) && msg@
                == "0, 1, or 2 arguments are required"@),
            match r {
                Ok(v) => {
                    &&& args@.len() <= 2
                    &&& args@.len() == 0 ==> 0 <= v <= 100
                    &&& args@.len() == 1 ==> 0 <= v <= args@[0]
                    &&& args@.len() == 2 ==> args@[0] <= v <= args@[1]
                },
                Err(e) => e is Other,
            },
    {
        match parse_args(args) {
            Ok(request) => fetch(request),
            Err(e) => Err(e),
        }
    }
}

/// The example plugin packaged as a loadable module: its registration
/// entry point registers `Random` under the name "random" and nothing
/// else.
pub struct RandomModule;

impl PluginModule<Random> for RandomModule {
    /// The one binding this module registers.
    open spec fn pass(&self) -> Map<Seq<char>, Random> {
        map!["random"@ => Random]
    }

    fn register(&self, registrar: &mut PluginRegistrar<Random>) {
        registrar.register_function("random", Random);
        proof {
            assert(registrar@ =~= old(registrar)@.union_prefer_right(self.pass()));
        }
    }
}

} // verus!
