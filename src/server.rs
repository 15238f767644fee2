use vstd::prelude::*;
use vstd::string::StringExecFns;
use crate::models;

verus! {

/// Errors of the read API, each with the HTTP status it is answered with.
#[derive(Debug, PartialEq, Eq)]
pub enum Error {
    /// Status 500: the server framework failed.
    Rocket(String),
    /// Status 500: the store failed.
    LowLevel(String),
    /// Status 404.
    NotFound(()),
    /// Status 500: stored data or a row count was not as expected.
    ServerError(String),
}

impl Error {
    /// The HTTP status of the error.
    pub fn status(&self) -> (r: u16)
        ensures
            r == (if self is NotFound { 404u16 } else { 500u16 }),
    {
        match self {
            Error::NotFound(_) => 404,
            _ => 500,
        }
    }
}

/// The decimal digit character of `d < 10`.
pub open spec fn digit_char(d: nat) -> char {
    if d == 0 { '0' }
    else if d == 1 { '1' }
    else if d == 2 { '2' }
    else if d == 3 { '3' }
    else if d == 4 { '4' }
    else if d == 5 { '5' }
    else if d == 6 { '6' }
    else if d == 7 { '7' }
    else if d == 8 { '8' }
    else { '9' }
}

/// The decimal numeral of `n`, without leading zeros.
pub open spec fn decimal(n: nat) -> Seq<char>
    decreases n,
{
    if n < 10 {
        seq![digit_char(n)]
    } else {
        decimal(n / 10).push(digit_char(n % 10))
    }
}

pub(crate) fn digit_str(d: u64) -> (r: &'static str)
    requires
        d < 10,
    ensures
        r@ == seq![digit_char(d as nat)],
{
    proof {
        reveal_strlit("0");
        reveal_strlit("1");
        reveal_strlit("2");
        reveal_strlit("3");
        reveal_strlit("4");
        reveal_strlit("5");
        reveal_strlit("6");
        reveal_strlit("7");
        reveal_strlit("8");
        reveal_strlit("9");
    }
    if d == 0 { "0" }
    else if d == 1 { "1" }
    else if d == 2 { "2" }
    else if d == 3 { "3" }
    else if d == 4 { "4" }
    else if d == 5 { "5" }
    else if d == 6 { "6" }
    else if d == 7 { "7" }
    else if d == 8 { "8" }
    else { "9" }
}

/// Appends the decimal numeral of `n` to `out`.
pub fn push_decimal(out: &mut String, n: u64)
    ensures
        final(out)@ == old(out)@ + decimal(n as nat),
    decreases n,
{
    if n < 10 {
        out.append(digit_str(n));
    } else {
        push_decimal(out, n / 10);
        out.append(digit_str(n % 10));
        assert(final(out)@ =~= old(out)@ + decimal(n as nat));
    }
}

/// How a code is written in a message: `None`, or `Some(` the numeral `)`.
pub open spec fn code_text(code: Option<u8>) -> Seq<char> {
    match code {
        Some(c) => seq!['S', 'o', 'm', 'e', '('] + decimal(c as nat) + seq![')'],
        None => seq!['N', 'o', 'n', 'e'],
    }
}

/// The message text of a confidence-level code.
pub fn code_message(code: Option<u8>) -> (r: String)
    ensures
        r@ == code_text(code),
{
    proof {
        reveal_strlit("Some(");
        reveal_strlit(")");
        reveal_strlit("None");
    }
    match code {
        Some(c) => {
            let mut s = String::from_str("Some(");
            push_decimal(&mut s, c as u64);
            s.append(")");
            assert(s@ =~= code_text(code));
            s
        },
        None => String::from_str("None"),
    }
}

/// `r` is the API error that answers the store or domain error `e`.
pub open spec fn answers(e: models::Error, r: Error) -> bool {
    match e {
        models::Error::LowLevel(m) => r == Error::LowLevel(m),
        models::Error::NotFound => r == Error::NotFound(()),
        models::Error::UnknownStateType(m) => r == Error::ServerError(m),
        models::Error::UnknownConfidenceLevel(c) => r matches Error::ServerError(m) && m@ == code_text(c),
    }
}

impl Error {
    /// The API error for a store or domain error: a missing row is a 404, the rest are 500s.
    pub fn from(e: models::Error) -> (r: Error)
        ensures
            answers(e, r),
    {
        match e {
            models::Error::LowLevel(m) => Error::LowLevel(m),
            models::Error::NotFound => Error::NotFound(()),
            models::Error::UnknownStateType(m) => Error::ServerError(m),
            models::Error::UnknownConfidenceLevel(c) => Error::ServerError(code_message(c)),
        }
    }
}

/// The answer to renaming an image source, from the number of rows the update touched.
pub fn update_outcome(rows_affected: u64) -> (r: Result<(), Error>)
    ensures
        rows_affected == 0 ==> r == Err::<(), Error>(Error::NotFound(())),
        rows_affected == 1 ==> r is Ok,
        rows_affected > 1 ==> (r matches Err(Error::ServerError(m)) && m@
            == "Unexpected row count "@ + decimal(rows_affected as nat)),
{
    if rows_affected == 0 {
        Err(Error::NotFound(()))
    } else if rows_affected == 1 {
        Ok(())
    } else {
        let mut m = String::from_str("Unexpected row count ");
        push_decimal(&mut m, rows_affected);
        Err(Error::ServerError(m))
    }
}

/// The greeting served at the root.
pub fn index() -> (r: &'static str)
    ensures
        r@ == "Hello world!"@,
{
    "Hello world!"
}

/// The HTTP methods the API answers.
#[derive(Clone, Copy, Debug, PartialEq, Eq, Structural)]
pub enum Method {
    Get,
    Put,
}

/// The endpoints of the read API.
#[derive(Clone, Copy, Debug, PartialEq, Eq, Structural)]
pub enum Endpoint {
    Index,
    ImageSources,
    ImageSource,
    UpdateImageSource,
    States,
    Counties,
    Projects,
    Manufacturers,
    Models,
    Turbines,
}

/// The path pattern of an endpoint.
pub open spec fn path_of(e: Endpoint) -> Seq<char> {
    match e {
        Endpoint::Index => "/"@,
        Endpoint::ImageSources => "/api/imagesources"@,
        Endpoint::ImageSource => "/api/imagesources/<id>"@,
        Endpoint::UpdateImageSource => "/api/imagesources/<id>"@,
        Endpoint::States => "/api/states"@,
        Endpoint::Counties => "/api/counties"@,
        Endpoint::Projects => "/api/projects"@,
        Endpoint::Manufacturers => "/api/manufacturers"@,
        Endpoint::Models => "/api/models"@,
        Endpoint::Turbines => "/api/turbines"@,
    }
}

impl Endpoint {
    /// The method of the endpoint: only the image-source rename writes.
    pub fn method(&self) -> (r: Method)
        ensures
            r == (if *self == Endpoint::UpdateImageSource { Method::Put } else { Method::Get }),
    {
        match self {
            Endpoint::UpdateImageSource => Method::Put,
            _ => Method::Get,
        }
    }

    /// The path pattern of the endpoint.
    pub fn path(&self) -> (r: &'static str)
        ensures
            r@ == path_of(*self),
    {
        match self {
            Endpoint::Index => "/",
            Endpoint::ImageSources => "/api/imagesources",
            Endpoint::ImageSource => "/api/imagesources/<id>",
            Endpoint::UpdateImageSource => "/api/imagesources/<id>",
            Endpoint::States => "/api/states",
            Endpoint::Counties => "/api/counties",
            Endpoint::Projects => "/api/projects",
            Endpoint::Manufacturers => "/api/manufacturers",
            Endpoint::Models => "/api/models",
            Endpoint::Turbines => "/api/turbines",
        }
    }
}

/// The endpoints the server mounts: the greeting, one listing per entity kind, one lookup
/// and one rename of an image source.
pub fn rocket() -> (r: Vec<Endpoint>)
    ensures
        r@ == seq![
            Endpoint::Index,
            Endpoint::ImageSources,
            Endpoint::ImageSource,
            Endpoint::UpdateImageSource,
            Endpoint::States,
            Endpoint::Counties,
            Endpoint::Projects,
            Endpoint::Manufacturers,
            Endpoint::Models,
            Endpoint::Turbines,
        ],
{
    vec![
        Endpoint::Index,
        Endpoint::ImageSources,
        Endpoint::ImageSource,
        Endpoint::UpdateImageSource,
        Endpoint::States,
        Endpoint::Counties,
        Endpoint::Projects,
        Endpoint::Manufacturers,
        Endpoint::Models,
        Endpoint::Turbines,
    ]
}

} // verus!
