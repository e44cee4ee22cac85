use vstd::prelude::*;
use vstd::string::StringSliceAdditionalSpecFns;
use vstd::utf8::encode_utf8_decode_utf8;

verus! {

/// How the spline is evaluated between two consecutive control points.
#[derive(Clone, Copy, Debug, PartialEq, Eq, Structural)]
pub enum Method {
    Linear,
    Cosine,
    CatmullRom,
}

/// A configuration problem that aborts a whole evaluation.
#[derive(Clone, Debug, PartialEq, Eq)]
pub enum SplineError {
    /// Not exactly one control-point structure was supplied; holds how many were.
    InvalidArity(usize),
    /// The method name was absent (`None`) or is not one of `valid_method_names()`.
    InvalidMethod(Option<String>),
}

/// The method that a name selects: names are matched exactly and case-sensitively.
pub open spec fn method_of_name(name: Seq<char>) -> Option<Method> {
    if name == "linear"@ {
        Some(Method::Linear)
    } else if name == "cosine"@ {
        Some(Method::Cosine)
    } else if name == "catmullrom"@ {
        Some(Method::CatmullRom)
    } else {
        None
    }
}

/// What selecting a method by an optional name gives.
pub open spec fn selection_spec(method: Option<Seq<char>>) -> Result<Method, Option<Seq<char>>> {
    match method {
        None => Err(None),
        Some(name) => match method_of_name(name) {
            Some(m) => Ok(m),
            None => Err(Some(name)),
        },
    }
}

/// The characters of an optional name.
pub open spec fn name_view(method: Option<&str>) -> Option<Seq<char>> {
    match method {
        Some(s) => Some(s@),
        None => None,
    }
}

/// `r` is what selecting a method by `method` gives: the method it names, or
/// `InvalidMethod` holding the rejected name (or nothing, for an absent one).
pub open spec fn selection_matches(method: Option<&str>, r: Result<Method, SplineError>) -> bool {
    match (selection_spec(name_view(method)), r) {
        (Ok(m), Ok(n)) => m == n,
        (Err(None), Err(SplineError::InvalidMethod(None))) => true,
        (Err(Some(name)), Err(SplineError::InvalidMethod(Some(given)))) => given@ == name,
        _ => false,
    }
}

/// The names that select a method, in the order Linear, Cosine, CatmullRom.
pub fn valid_method_names() -> (r: Vec<&'static str>)
    ensures
        r@.len() == 3,
        r@[0]@ == "linear"@,
        r@[1]@ == "cosine"@,
        r@[2]@ == "catmullrom"@,
{
    vec!["linear", "cosine", "catmullrom"]
}

/// Whether two strings hold the same characters, compared byte by byte.
fn same_text(a: &str, b: &str) -> (r: bool)
    ensures
        r == (a@ == b@),
{
    let ab = a.as_bytes();
    let bb = b.as_bytes();
    proof {
        encode_utf8_decode_utf8(a@);
        encode_utf8_decode_utf8(b@);
    }
    if ab.len() != bb.len() {
        return false;
    }
    let mut i: usize = 0;
    while i < ab.len()
        invariant
            ab@ == a.spec_bytes(),
            bb@ == b.spec_bytes(),
            ab@.len() == bb@.len(),
            0 <= i <= ab@.len(),
            forall|j: int| 0 <= j < i ==> ab@[j] == bb@[j],
        decreases ab@.len() - i,
    {
        if ab[i] != bb[i] {
            return false;
        }
        i = i + 1;
    }
    proof {
        assert(ab@ =~= bb@);
    }
    true
}

/// Selects the interpolation method that `method` names.
///
/// `"linear"`, `"cosine"` and `"catmullrom"` are the only names accepted; any
/// other name is returned inside `InvalidMethod`, and an absent name gives
/// `InvalidMethod(None)`.
pub fn interpolator_from_name(method: Option<&str>) -> (r: Result<Method, SplineError>)
    ensures
        selection_matches(method, r),
{
    match method {
        None => Err(SplineError::InvalidMethod(None)),
        Some(name) => {
            if same_text(name, "linear") {
                Ok(Method::Linear)
            } else if same_text(name, "cosine") {
                Ok(Method::Cosine)
            } else if same_text(name, "catmullrom") {
                Ok(Method::CatmullRom)
            } else {
                Err(SplineError::InvalidMethod(Some(name.to_owned())))
            }
        },
    }
}

/// Checks the whole configuration of a call before anything is computed:
/// first that exactly one control-point structure was supplied, then the
/// method name.
pub fn validate_call(n_inputs: usize, method: Option<&str>) -> (r: Result<Method, SplineError>)
    ensures
        n_inputs != 1 ==> r == Err::<Method, SplineError>(SplineError::InvalidArity(n_inputs)),
        n_inputs == 1 ==> selection_matches(method, r),
{
    if n_inputs != 1 {
        return Err(SplineError::InvalidArity(n_inputs));
    }
    interpolator_from_name(method)
}

/// Names select methods exactly: a name that differs from `"linear"` in the
/// case of one letter selects no method.
pub proof fn lemma_names_are_case_sensitive()
    ensures
        selection_spec(Some("Linear"@)) == Err::<Method, Option<Seq<char>>>(Some("Linear"@)),
        selection_spec(Some("linear"@)) == Ok::<Method, Option<Seq<char>>>(Method::Linear),
{
    reveal_strlit("Linear");
    reveal_strlit("linear");
    reveal_strlit("cosine");
    reveal_strlit("catmullrom");
    assert("Linear"@[0] != "linear"@[0]);
    assert("Linear"@.len() != "cosine"@.len() || "Linear"@[0] != "cosine"@[0]);
    assert("Linear"@.len() != "catmullrom"@.len());
}

} // verus!
