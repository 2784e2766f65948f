use vstd::prelude::*;
use crate::keyed::KeyedMap;

verus! {

/// The pipeline parameters, by name, in ascending name order.
pub struct Parameters {
    pub parameters: KeyedMap<Parameter>,
}

/// A typed pipeline input with its default value.
pub struct Parameter {
    pub value: ParameterType,
    pub description: Option<String>,
}

/// The kind of a parameter together with its default value.
pub enum ParameterType {
    String(String),
    Boolean(bool),
}

/// A rendered scalar: text or a boolean.
pub enum Scalar {
    Text(String),
    Flag(bool),
}

/// Whether `s` is the text `t`.
pub open spec fn is_text(s: Scalar, t: Seq<char>) -> bool {
    match s {
        Scalar::Text(x) => x@ == t,
        Scalar::Flag(_) => false,
    }
}

pub open spec fn type_key() -> Seq<char> {
    seq!['t', 'y', 'p', 'e']
}

pub open spec fn default_key() -> Seq<char> {
    seq!['d', 'e', 'f', 'a', 'u', 'l', 't']
}

pub open spec fn description_key() -> Seq<char> {
    seq!['d', 'e', 's', 'c', 'r', 'i', 'p', 't', 'i', 'o', 'n']
}

pub open spec fn string_type_name() -> Seq<char> {
    seq!['s', 't', 'r', 'i', 'n', 'g']
}

pub open spec fn bool_type_name() -> Seq<char> {
    seq!['b', 'o', 'o', 'l']
}

/// Whether `r` is the rendering of a parameter of kind `value` and the given
/// description: `type`, then `default`, then `description` where there is one.
pub open spec fn parameter_rendered(
    value: ParameterType,
    description: Option<String>,
    r: Seq<(String, Scalar)>,
) -> bool {
    &&& r.len() == (if description is Some { 3int } else { 2int })
    &&& r[0].0@ == type_key()
    &&& r[1].0@ == default_key()
    &&& match value {
        ParameterType::String(d) => is_text(r[0].1, string_type_name()) && is_text(r[1].1, d@),
        ParameterType::Boolean(b) => is_text(r[0].1, bool_type_name()) && r[1].1 == Scalar::Flag(
            b,
        ),
    }
    &&& match description {
        Some(d) => r[2].0@ == description_key() && is_text(r[2].1, d@),
        None => true,
    }
}

/// Whether `p` is a string parameter with the given default and description.
pub open spec fn is_string_parameter(p: Parameter, default: Seq<char>, description: Option<&str>) -> bool {
    &&& p.value matches ParameterType::String(d) && d@ == default
    &&& match description {
        Some(d) => p.description matches Some(x) && x@ == d@,
        None => p.description is None,
    }
}

impl Parameter {
    /// A string parameter with its default and optional description.
    pub fn string(default: &str, description: Option<&str>) -> (r: Parameter)
        ensures
            is_string_parameter(r, default@, description),
    {
        let description = match description {
            Some(d) => Some(d.to_owned()),
            None => None,
        };
        Parameter { value: ParameterType::String(default.to_owned()), description }
    }

    /// The parameter as the entries of the map it renders to, in order.
    pub fn render(&self) -> (r: Vec<(String, Scalar)>)
        ensures
            parameter_rendered(self.value, self.description, r@),
    {
        proof {
            reveal_strlit("type");
            reveal_strlit("default");
            reveal_strlit("description");
            reveal_strlit("string");
            reveal_strlit("bool");
            assert("type"@ =~= type_key());
            assert("default"@ =~= default_key());
            assert("description"@ =~= description_key());
            assert("string"@ =~= string_type_name());
            assert("bool"@ =~= bool_type_name());
        }
        let mut r: Vec<(String, Scalar)> = Vec::new();
        match &self.value {
            ParameterType::String(d) => {
                r.push(("type".to_owned(), Scalar::Text("string".to_owned())));
                r.push(("default".to_owned(), Scalar::Text(d.clone())));
            },
            ParameterType::Boolean(b) => {
                r.push(("type".to_owned(), Scalar::Text("bool".to_owned())));
                r.push(("default".to_owned(), Scalar::Flag(*b)));
            },
        }
        match &self.description {
            Some(d) => {
                r.push(("description".to_owned(), Scalar::Text(d.clone())));
            },
            None => {},
        }
        r
    }
}

} // verus!
