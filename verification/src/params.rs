use vstd::prelude::*;
use vstd::string::*;
use crate::digits::{dec_str, format_u64};

verus! {

/// Tagged RPC parameter, parsed and validated once at the transport boundary
/// so that handlers receive strongly-typed input.  A shape no handler acts on
/// arrives as `Other`, carrying the transport's own rendering of the value so
/// error messages can still name it.
#[derive(Debug, Clone, PartialEq, Eq)]
pub enum Params {
    /// The absence-of-value marker.
    Null,
    /// A boolean value.
    Bool(bool),
    /// A non-negative integer value.
    Number(u64),
    /// A text value.
    Text(String),
    /// Any other shape, rendered by the transport.
    Other(String),
}

/// Rendering of a parameter as it appears inside error messages.
pub open spec fn params_debug(p: Params) -> Seq<char> {
    match p {
        Params::Null => "Null"@,
        Params::Bool(b) => if b {
            "Bool(true)"@
        } else {
            "Bool(false)"@
        },
        Params::Number(n) => "Number("@ + dec_str(n as nat) + ")"@,
        Params::Text(s) => "String(\""@ + s@ + "\")"@,
        Params::Other(d) => d@,
    }
}

impl Params {
    /// Build the rendering used inside error messages.
    pub fn debug_text(&self) -> (r: String)
        ensures
            r@ == params_debug(*self),
    {
        match self {
            Params::Null => String::from_str("Null"),
            Params::Bool(b) => {
                if *b {
                    String::from_str("Bool(true)")
                } else {
                    String::from_str("Bool(false)")
                }
            },
            Params::Number(n) => {
                let mut s = String::from_str("Number(");
                let num = format_u64(*n);
                s.append(num.as_str());
                s.append(")");
                proof {
                    assert(s@ =~= params_debug(*self));
                }
                s
            },
            Params::Text(t) => {
                let mut s = String::from_str("String(\"");
                s.append(t.as_str());
                s.append("\")");
                proof {
                    assert(s@ =~= params_debug(*self));
                }
                s
            },
            Params::Other(d) => d.clone(),
        }
    }
}

} // verus!
