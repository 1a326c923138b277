//! Channel configuration properties.

use vstd::prelude::*;
use vstd::string::StringExecFns;

verus! {

/// A property set on a channel.
#[derive(Debug, Clone, PartialEq)]
pub enum Property {
    Attribute(String),
}

/// Two properties of the same kind replace one another when set.
pub open spec fn same_kind(a: Property, b: Property) -> bool {
    match (a, b) {
        (Property::Attribute(_), Property::Attribute(_)) => true,
    }
}

impl Property {
    /// Whether a property is an attribute.
    pub fn is_attribute(property: &Property) -> (b: bool)
        ensures
            b == (property is Attribute),
    {
        matches!(property, Property::Attribute(_))
    }

    /// A textual rendering of the property, naming its kind and value.
    pub fn text(&self) -> (r: String)
        ensures
            self matches Property::Attribute(a) ==> r@ == "Attribute("@ + a@ + ")"@,
    {
        match self {
            Property::Attribute(a) => {
                let mut r = String::from_str("Attribute(");
                r.append(a.as_str());
                r.append(")");
                r
            },
        }
    }
}

} // verus!
