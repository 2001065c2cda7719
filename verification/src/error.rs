use vstd::prelude::*;
use vstd::string::StringExecFns;

verus! {

pub type ResultX<T> = Result<T, ErrorX>;

pub type ResultGrapes<T> = Result<T, GrapesError>;

pub type ResultG<T> = Result<T, GrapesError>;

/// What can go wrong while talking to the X server.
#[derive(Debug)]
pub enum ErrorX {
    /// A library could not be loaded: its name, then the loader's words.
    CouldNotLoadX11(String, String),
    /// The display refused: the step, then the detail.
    Display(String, String),
    /// The window refused: the step, then the detail.
    Window(String, String),
    /// A value did not convert: what it was, then what it should have become.
    TypeConversion(String, String),
    Generic(String),
}

/// What can go wrong in the toolkit as a whole.
#[derive(Debug)]
pub enum GrapesError {
    LoadingResource(String),
    ParsingResource(String),
    Unsupported(String),
    IllegalConversion(String),
    XError(ErrorX),
}

/// `head`, then `first`, then `" - "`, then `second`.
pub open spec fn dashed(head: Seq<char>, first: Seq<char>, second: Seq<char>) -> Seq<char> {
    head + first + " - "@ + second
}

fn join_dashed(head: &str, first: &String, second: &String) -> (s: String)
    ensures
        s@ == dashed(head@, first@, second@),
{
    let mut s = String::from_str(head);
    s.append(first.as_str());
    s.append(" - ");
    s.append(second.as_str());
    s
}

fn join(head: &str, tail: &String) -> (s: String)
    ensures
        s@ == head@ + tail@,
{
    let mut s = String::from_str(head);
    s.append(tail.as_str());
    s
}

impl ErrorX {
    /// The text of the error.
    pub open spec fn text(self) -> Seq<char> {
        match self {
            ErrorX::CouldNotLoadX11(a, b) => dashed("Could not load x11_dl: "@, a@, b@),
            ErrorX::Display(a, b) => dashed("Display: "@, a@, b@),
            ErrorX::Window(a, b) => dashed("Window: "@, a@, b@),
            ErrorX::TypeConversion(a, b) => a@ + " to "@ + b@,
            ErrorX::Generic(a) => a@,
        }
    }

    /// The text of the error, as a string.
    pub fn message(&self) -> (s: String)
        ensures
            s@ == self.text(),
    {
        match self {
            ErrorX::CouldNotLoadX11(a, b) => join_dashed("Could not load x11_dl: ", a, b),
            ErrorX::Display(a, b) => join_dashed("Display: ", a, b),
            ErrorX::Window(a, b) => join_dashed("Window: ", a, b),
            ErrorX::TypeConversion(a, b) => {
                let mut s = a.clone();
                s.append(" to ");
                s.append(b.as_str());
                s
            },
            ErrorX::Generic(a) => a.clone(),
        }
    }
}

impl GrapesError {
    /// The text of the error. An X error says so and no more; its own text
    /// is that of the error inside.
    pub open spec fn text(self) -> Seq<char> {
        match self {
            GrapesError::LoadingResource(a) => "Error loading resource "@ + a@,
            GrapesError::ParsingResource(a) => "Parsing resource "@ + a@,
            GrapesError::Unsupported(a) => "Unsupported: "@ + a@,
            GrapesError::IllegalConversion(a) => "Illegal Conversion: "@ + a@,
            GrapesError::XError(_) => "x error"@,
        }
    }

    /// The text of the error, as a string.
    pub fn message(&self) -> (s: String)
        ensures
            s@ == self.text(),
    {
        match self {
            GrapesError::LoadingResource(a) => join("Error loading resource ", a),
            GrapesError::ParsingResource(a) => join("Parsing resource ", a),
            GrapesError::Unsupported(a) => join("Unsupported: ", a),
            GrapesError::IllegalConversion(a) => join("Illegal Conversion: ", a),
            GrapesError::XError(_) => String::from_str("x error"),
        }
    }
}

impl From<ErrorX> for GrapesError {
    fn from(value: ErrorX) -> (e: Self) {
        GrapesError::XError(value)
    }
}

impl vstd::std_specs::convert::FromSpecImpl<ErrorX> for GrapesError {
    open spec fn obeys_from_spec() -> bool {
        true
    }

    open spec fn from_spec(v: ErrorX) -> GrapesError {
        GrapesError::XError(v)
    }
}

} // verus!
