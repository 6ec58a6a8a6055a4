//! A request to the service, as plain values.

use vstd::prelude::*;
use vstd::string::*;

verus! {

/// How a request carries its parameters.
#[derive(Debug, Clone, Copy, PartialEq, Eq)]
pub enum Method {
    /// A GET request: the parameters form the query string.
    Get,
    /// A POST request: the parameters form a form-encoded body.
    Post,
}

/// One request: where it goes and the parameters it carries, in order.
#[derive(Debug, Clone, PartialEq, Eq)]
pub struct Request {
    pub method: Method,
    pub url: String,
    pub params: Vec<(String, String)>,
}

/// A [`Request`] with its texts as sequences of characters.
pub struct RequestView {
    pub method: Method,
    pub url: Seq<char>,
    pub params: Seq<(Seq<char>, Seq<char>)>,
}

/// A parameter list with its texts as sequences of characters.
pub open spec fn params_view(params: Seq<(String, String)>) -> Seq<(Seq<char>, Seq<char>)> {
    params.map_values(|p: (String, String)| (p.0@, p.1@))
}

impl View for Request {
    type V = RequestView;

    open spec fn view(&self) -> RequestView {
        RequestView { method: self.method, url: self.url@, params: params_view(self.params@) }
    }
}

/// Appends the parameter `name=value` to `params`.
pub fn push_param(params: &mut Vec<(String, String)>, name: &str, value: &str)
    ensures
        params_view(final(params)@) == params_view(old(params)@).push((name@, value@)),
{
    params.push((String::from_str(name), String::from_str(value)));
    assert(params_view(params@) =~= params_view(old(params)@).push((name@, value@)));
}

} // verus!
