use vstd::prelude::*;
use vstd::string::StrSliceExecFns;
use vstd::string::StringExecFns;

verus! {

/// Failures surfaced when stored or incoming values cannot be mapped to the domain.
#[derive(Clone, Debug, PartialEq, Eq)]
pub enum Error {
    /// A failure of the store or its transport, with its message.
    LowLevel(String),
    /// The requested row does not exist.
    NotFound,
    /// A region-type code outside `S`, `T`, `F`; carries the code as given.
    UnknownStateType(String),
    /// A confidence-level code outside 1..=3; carries the code as given.
    UnknownConfidenceLevel(Option<u8>),
}

/// An image source as stored: surrogate id and (possibly blank) name.
#[derive(Clone, Debug, PartialEq, Eq)]
pub struct ImageSource {
    pub id: u8,
    pub name: String,
}

/// A manufacturer as stored: surrogate id and (possibly blank) name.
#[derive(Clone, Debug, PartialEq, Eq)]
pub struct Manufacturer {
    pub id: i32,
    pub name: String,
}

/// A county as stored: surrogate id, owning region code, name.
#[derive(Clone, Debug, PartialEq, Eq)]
pub struct County {
    pub id: i32,
    pub state_id: String,
    pub name: String,
}

#[derive(Clone, Copy, Debug, PartialEq, Eq, Structural)]
pub enum StateType {
    State,
    Territory,
    FederalCapital,
}

/// A region (US state, territory or federal capital), keyed by its abbreviation `id`.
#[derive(Clone, Debug, PartialEq, Eq)]
pub struct State {
    pub id: String,
    pub name: String,
    pub capital: Option<String>,
    pub population: Option<i32>,
    pub area_square_km: Option<i32>,
    pub state_type: StateType,
}

#[derive(Clone, Copy, Debug, PartialEq, Eq, Structural)]
pub enum ConfidenceLevel {
    Low,
    Medium,
    High,
}

/// The region type denoted by a code: its first character, either case, is `S`, `T` or `F`.
pub open spec fn state_type_of_code(code: Seq<char>) -> Option<StateType> {
    if code.len() == 0 {
        None
    } else if code[0] == 'S' || code[0] == 's' {
        Some(StateType::State)
    } else if code[0] == 'T' || code[0] == 't' {
        Some(StateType::Territory)
    } else if code[0] == 'F' || code[0] == 'f' {
        Some(StateType::FederalCapital)
    } else {
        None
    }
}

/// The region type of a stored code: exactly `S`, `T` or `F`.
pub open spec fn stored_state_type(code: Seq<char>) -> Option<StateType> {
    if code == seq!['S'] {
        Some(StateType::State)
    } else if code == seq!['T'] {
        Some(StateType::Territory)
    } else if code == seq!['F'] {
        Some(StateType::FederalCapital)
    } else {
        None
    }
}

/// The confidence level denoted by a small-integer code.
pub open spec fn confidence_of_code(code: Option<u8>) -> Option<ConfidenceLevel> {
    match code {
        Some(1u8) => Some(ConfidenceLevel::Low),
        Some(2u8) => Some(ConfidenceLevel::Medium),
        Some(3u8) => Some(ConfidenceLevel::High),
        _ => None,
    }
}

impl StateType {
    /// Maps a region-type code; an unrecognised code is a domain error, never a default.
    pub fn from_code(code: &str) -> (r: Result<StateType, Error>)
        ensures
            state_type_of_code(code@) matches Some(t) ==> r == Ok::<StateType, Error>(t),
            state_type_of_code(code@) is None ==> (r matches Err(Error::UnknownStateType(c))
                && c@ == code@),
    {
        if code.unicode_len() == 0 {
            return Err(Error::UnknownStateType(code.to_owned()));
        }
        let c = code.get_char(0);
        if c == 'S' || c == 's' {
            Ok(StateType::State)
        } else if c == 'T' || c == 't' {
            Ok(StateType::Territory)
        } else if c == 'F' || c == 'f' {
            Ok(StateType::FederalCapital)
        } else {
            Err(Error::UnknownStateType(code.to_owned()))
        }
    }
}

/// What `{:?}` writes for a string: its characters between double quotes, with quotes,
/// backslashes and non-printable characters escaped.
pub uninterp spec fn debug_text(s: Seq<char>) -> Seq<char>;

/// A character that `{:?}` writes unescaped: an ASCII letter, digit or space.
pub open spec fn debug_plain(c: char) -> bool {
    ('a' <= c <= 'z') || ('A' <= c <= 'Z') || ('0' <= c <= '9') || c == ' '
}

/// Relies on `<str as Debug>::fmt` (via `format!("{:?}")`): the quoted, escaped form of
/// `s`, which depends on its characters alone and leaves letters, digits and spaces as
/// they are.
#[verifier::external_body]
fn debug_quoted(s: &str) -> (r: String)
    ensures
        r@ == debug_text(s@),
        (forall|i: int| 0 <= i < s@.len() ==> debug_plain(#[trigger] s@[i])) ==> r@ == seq!['"']
            + s@ + seq!['"'],
{
    format!("{:?}", s)
}

/// The message for an unknown stored region-type code: what `{:?}` writes for the column's
/// `Option`, `None` or `Some(` the quoted code `)`.
pub open spec fn stored_code_text(code: Option<Seq<char>>) -> Seq<char> {
    match code {
        Some(c) => seq!['S', 'o', 'm', 'e', '('] + debug_text(c) + seq![')'],
        None => seq!['N', 'o', 'n', 'e'],
    }
}

impl StateType {
    /// Decodes the region type column of a stored row; a NULL or unknown code is a domain
    /// error whose message is the column's value as `{:?}` writes it.
    pub fn from_stored(code: Option<&str>) -> (r: Result<StateType, Error>)
        ensures
            code is Some && stored_state_type(code.unwrap()@) is Some ==> r == Ok::<StateType, Error>(
                stored_state_type(code.unwrap()@).unwrap(),
            ),
            code is Some && stored_state_type(code.unwrap()@) is None ==> (r matches Err(
                Error::UnknownStateType(m),
            ) && m@ == stored_code_text(Some(code.unwrap()@))),
            code is Some && stored_state_type(code.unwrap()@) is None && (forall|i: int|
                0 <= i < code.unwrap()@.len() ==> debug_plain(#[trigger] code.unwrap()@[i]))
                ==> (r matches Err(Error::UnknownStateType(m)) && m@ == seq!['S', 'o', 'm', 'e', '(', '"']
                + code.unwrap()@ + seq!['"', ')']),
            code is None ==> (r matches Err(Error::UnknownStateType(m)) && m@ == stored_code_text(
                None,
            )),
    {
        proof {
            reveal_strlit("None");
            reveal_strlit("Some(");
            reveal_strlit(")");
        }
        match code {
            None => Err(Error::UnknownStateType("None".to_owned())),
            Some(c) => {
                if c.unicode_len() == 1 {
                    let ch = c.get_char(0);
                    assert(c@ =~= seq![ch]);
                    if ch == 'S' {
                        return Ok(StateType::State);
                    } else if ch == 'T' {
                        return Ok(StateType::Territory);
                    } else if ch == 'F' {
                        return Ok(StateType::FederalCapital);
                    }
                }
                let quoted = debug_quoted(c);
                let mut m = String::from_str("Some(");
                m.append(quoted.as_str());
                m.append(")");
                assert(m@ =~= stored_code_text(Some(c@)));
                assert((forall|i: int| 0 <= i < c@.len() ==> debug_plain(#[trigger] c@[i])) ==> m@
                    =~= seq!['S', 'o', 'm', 'e', '(', '"'] + c@ + seq!['"', ')']);
                Err(Error::UnknownStateType(m))
            },
        }
    }
}

impl ConfidenceLevel {
    /// Maps a confidence-level code; an unrecognised or missing code is a domain error.
    pub fn from_code(code: Option<u8>) -> (r: Result<ConfidenceLevel, Error>)
        ensures
            confidence_of_code(code) matches Some(l) ==> r == Ok::<ConfidenceLevel, Error>(l),
            confidence_of_code(code) is None ==> (r matches Err(Error::UnknownConfidenceLevel(c))
                && c == code),
    {
        match code {
            Some(1u8) => Ok(ConfidenceLevel::Low),
            Some(2u8) => Ok(ConfidenceLevel::Medium),
            Some(3u8) => Ok(ConfidenceLevel::High),
            _ => Err(Error::UnknownConfidenceLevel(code)),
        }
    }

    /// The code under which the level is stored.
    pub fn code(&self) -> (r: u8)
        ensures
            confidence_of_code(Some(r)) == Some(*self),
    {
        match self {
            ConfidenceLevel::Low => 1,
            ConfidenceLevel::Medium => 2,
            ConfidenceLevel::High => 3,
        }
    }
}

impl StateType {
    /// The one-letter code under which the region type is stored.
    pub fn code(&self) -> (r: char)
        ensures
            state_type_of_code(seq![r]) == Some(*self),
    {
        match self {
            StateType::State => 'S',
            StateType::Territory => 'T',
            StateType::FederalCapital => 'F',
        }
    }
}

} // verus!
