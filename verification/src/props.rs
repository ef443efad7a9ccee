//! Properties handed to a custom component: the tag's raw attributes in
//! source order plus the already-rendered children view, with type-directed
//! access to attribute values.

use vstd::prelude::*;

use crate::element::Element;
use crate::parse::{int_literal_val, is_int_literal, parse_bool, parse_i64, str_eq};

verus! {

/// The recoverable failures of custom-component creation.
#[derive(Debug, PartialEq, Eq)]
pub enum ComponentCreationError {
    /// A required attribute is absent.
    MissingAttribute(String),
    /// An attribute is present but its raw text does not parse as the
    /// requested type; carries the attribute name and the raw value.
    AttributeParseError(String, String),
    /// A custom tag names no registered component.
    UnknownComponent(String),
}

/// Raw attributes (in source order) and rendered children of one
/// custom-component occurrence. Created once per occurrence and consumed by
/// the matching registered component.
#[derive(Debug)]
pub struct MdComponentProps {
    pub attributes: Vec<(String, String)>,
    pub children: Option<Element>,
}

/// The raw value of the first attribute named `name`, if any.
pub open spec fn spec_attr(s: Seq<(String, String)>, name: Seq<char>) -> Option<Seq<char>>
    decreases s.len(),
{
    if s.len() == 0 {
        Option::None
    } else if s[0].0@ == name {
        Option::Some(s[0].1@)
    } else {
        spec_attr(s.drop_first(), name)
    }
}

impl MdComponentProps {
    pub fn new(attributes: Vec<(String, String)>, children: Option<Element>) -> (r:
        MdComponentProps)
        ensures
            r.attributes == attributes,
            r.children == children,
    {
        MdComponentProps { attributes, children }
    }

    /// The raw text of attribute `name`, or `None` when absent.
    pub fn get_attribute(&self, name: &str) -> (r: Option<&String>)
        ensures
            match r {
                Some(v) => spec_attr(self.attributes@, name@) == Option::Some(v@),
                None => spec_attr(self.attributes@, name@) is None,
            },
    {
        let n = self.attributes.len();
        proof {
            assert(self.attributes@.subrange(0, n as int) =~= self.attributes@);
        }
        let mut i: usize = 0;
        while i < n
            invariant
                0 <= i <= n,
                n == self.attributes@.len(),
                spec_attr(self.attributes@, name@) == spec_attr(
                    self.attributes@.subrange(i as int, n as int),
                    name@,
                ),
            decreases n - i,
        {
            proof {
                assert(self.attributes@.subrange(i as int, n as int).drop_first()
                    =~= self.attributes@.subrange(i + 1, n as int));
            }
            if str_eq(self.attributes[i].0.as_str(), name) {
                return Some(&self.attributes[i].1);
            }
            i += 1;
        }
        proof {
            assert(self.attributes@.subrange(i as int, n as int) =~= Seq::<(
                String,
                String,
            )>::empty());
        }
        None
    }

    /// A required integer attribute: absence and malformed or out-of-range
    /// text are both errors.
    pub fn get_required_i64(&self, name: &str) -> (r: Result<i64, ComponentCreationError>)
        ensures
            match spec_attr(self.attributes@, name@) {
                Option::None => (r matches Err(e) && e matches
                    ComponentCreationError::MissingAttribute(m) && m@ == name@),
                Option::Some(raw) => {
                    if is_int_literal(raw) && i64::MIN <= int_literal_val(raw) <= i64::MAX {
                        r matches Ok(v) && v == int_literal_val(raw)
                    } else {
                        (r matches Err(e) && e matches ComponentCreationError::AttributeParseError(
                            m,
                            v,
                        ) && m@ == name@ && v@ == raw)
                    }
                },
            },
    {
        match self.get_attribute(name) {
            None => Err(ComponentCreationError::MissingAttribute(name.to_owned())),
            Some(raw) => match parse_i64(raw.as_str()) {
                Some(v) => Ok(v),
                None => Err(
                    ComponentCreationError::AttributeParseError(name.to_owned(), raw.clone()),
                ),
            },
        }
    }

    /// An optional integer attribute: absence is `Ok(None)`, never an error.
    pub fn get_optional_i64(&self, name: &str) -> (r: Result<
        Option<i64>,
        ComponentCreationError,
    >)
        ensures
            match spec_attr(self.attributes@, name@) {
                Option::None => r == Result::<Option<i64>, ComponentCreationError>::Ok(
                    Option::<i64>::None,
                ),
                Option::Some(raw) => {
                    if is_int_literal(raw) && i64::MIN <= int_literal_val(raw) <= i64::MAX {
                        r matches Ok(o) && o matches Some(v) && v == int_literal_val(raw)
                    } else {
                        (r matches Err(e) && e matches ComponentCreationError::AttributeParseError(
                            m,
                            v,
                        ) && m@ == name@ && v@ == raw)
                    }
                },
            },
    {
        match self.get_attribute(name) {
            None => Ok(None),
            Some(raw) => match parse_i64(raw.as_str()) {
                Some(v) => Ok(Some(v)),
                None => Err(
                    ComponentCreationError::AttributeParseError(name.to_owned(), raw.clone()),
                ),
            },
        }
    }

    /// A required boolean attribute: exactly `true` or `false`.
    pub fn get_required_bool(&self, name: &str) -> (r: Result<bool, ComponentCreationError>)
        ensures
            match spec_attr(self.attributes@, name@) {
                Option::None => (r matches Err(e) && e matches
                    ComponentCreationError::MissingAttribute(m) && m@ == name@),
                Option::Some(raw) => {
                    if raw == "true"@ {
                        r == Result::<bool, ComponentCreationError>::Ok(true)
                    } else if raw == "false"@ {
                        r == Result::<bool, ComponentCreationError>::Ok(false)
                    } else {
                        (r matches Err(e) && e matches ComponentCreationError::AttributeParseError(
                            m,
                            v,
                        ) && m@ == name@ && v@ == raw)
                    }
                },
            },
    {
        match self.get_attribute(name) {
            None => Err(ComponentCreationError::MissingAttribute(name.to_owned())),
            Some(raw) => match parse_bool(raw.as_str()) {
                Some(v) => Ok(v),
                None => Err(
                    ComponentCreationError::AttributeParseError(name.to_owned(), raw.clone()),
                ),
            },
        }
    }

    /// An optional boolean attribute: absence is `Ok(None)`.
    pub fn get_optional_bool(&self, name: &str) -> (r: Result<
        Option<bool>,
        ComponentCreationError,
    >)
        ensures
            match spec_attr(self.attributes@, name@) {
                Option::None => r == Result::<Option<bool>, ComponentCreationError>::Ok(
                    Option::<bool>::None,
                ),
                Option::Some(raw) => {
                    if raw == "true"@ {
                        r matches Ok(o) && o == Option::<bool>::Some(true)
                    } else if raw == "false"@ {
                        r matches Ok(o) && o == Option::<bool>::Some(false)
                    } else {
                        (r matches Err(e) && e matches ComponentCreationError::AttributeParseError(
                            m,
                            v,
                        ) && m@ == name@ && v@ == raw)
                    }
                },
            },
    {
        match self.get_attribute(name) {
            None => Ok(None),
            Some(raw) => match parse_bool(raw.as_str()) {
                Some(v) => Ok(Some(v)),
                None => Err(
                    ComponentCreationError::AttributeParseError(name.to_owned(), raw.clone()),
                ),
            },
        }
    }

    /// A required string attribute, passed through unparsed.
    pub fn get_required_string(&self, name: &str) -> (r: Result<String, ComponentCreationError>)
        ensures
            match spec_attr(self.attributes@, name@) {
                Option::None => (r matches Err(e) && e matches
                    ComponentCreationError::MissingAttribute(m) && m@ == name@),
                Option::Some(raw) => r matches Ok(v) && v@ == raw,
            },
    {
        match self.get_attribute(name) {
            None => Err(ComponentCreationError::MissingAttribute(name.to_owned())),
            Some(raw) => Ok(raw.clone()),
        }
    }

    /// An optional string attribute: absence is `Ok(None)`.
    pub fn get_optional_string(&self, name: &str) -> (r: Option<String>)
        ensures
            match spec_attr(self.attributes@, name@) {
                Option::None => r is None,
                Option::Some(raw) => r matches Some(v) && v@ == raw,
            },
    {
        match self.get_attribute(name) {
            None => None,
            Some(raw) => Some(raw.clone()),
        }
    }
}

} // verus!
