//! Process-wide configuration: the firewall disposition for matched traffic
//! and the enablement of the built-in and custom feed sources.

use vstd::prelude::*;

verus! {

/// The firewall disposition applied to traffic matched by an installed rule.
#[derive(Clone, Copy, Debug, PartialEq, Eq, Structural)]
pub enum IptablesTarget {
    Drop,
    Reject,
    Tarpit,
}

/// The text of a target as it appears inside a rule specification.
pub open spec fn target_text(t: IptablesTarget) -> Seq<char> {
    match t {
        IptablesTarget::Drop => "DROP"@,
        IptablesTarget::Reject => "REJECT"@,
        IptablesTarget::Tarpit => "TARPIT --tarpit"@,
    }
}

impl IptablesTarget {
    /// The command-line arguments that select this target on a rule.
    pub fn to_args(self) -> (r: Vec<String>)
        ensures
            match self {
                IptablesTarget::Drop => r@.len() == 1 && r@[0]@ == "DROP"@,
                IptablesTarget::Reject => r@.len() == 1 && r@[0]@ == "REJECT"@,
                IptablesTarget::Tarpit => r@.len() == 2 && r@[0]@ == "TARPIT"@ && r@[1]@
                    == "--tarpit"@,
            },
    {
        match self {
            IptablesTarget::Drop => vec![String::from_str("DROP")],
            IptablesTarget::Reject => vec![String::from_str("REJECT")],
            IptablesTarget::Tarpit => vec![
                String::from_str("TARPIT"),
                String::from_str("--tarpit"),
            ],
        }
    }

    /// The target as rule text: the arguments joined by a single space.
    pub fn to_text(self) -> (r: String)
        ensures
            r@ == target_text(self),
    {
        match self {
            IptablesTarget::Drop => String::from_str("DROP"),
            IptablesTarget::Reject => String::from_str("REJECT"),
            IptablesTarget::Tarpit => String::from_str("TARPIT --tarpit"),
        }
    }
}

impl Default for IptablesTarget {
    /// The default disposition is to drop matched traffic.
    fn default() -> (r: Self)
        ensures
            r == IptablesTarget::Drop,
    {
        IptablesTarget::Drop
    }
}

/// Enablement flags for the three built-in feed severity levels.
#[derive(Clone, Copy, Debug, PartialEq, Eq, Structural)]
pub struct Firehol {
    pub level1: bool,
    pub level2: bool,
    pub level3: bool,
}

impl Default for Firehol {
    /// By default the strictest list stays off and the two broader ones are on.
    fn default() -> (r: Self)
        ensures
            !r.level1,
            r.level2,
            r.level3,
    {
        Firehol { level1: false, level2: true, level3: true }
    }
}

/// The settings the engine runs under: a target action, the built-in feed
/// flags, and custom source name-to-URL pairs.
pub struct Settings {
    pub target: IptablesTarget,
    pub firehol: Firehol,
    pub sources: Vec<(String, String)>,
}

impl Default for Settings {
    fn default() -> (r: Self)
        ensures
            r.target == IptablesTarget::Drop,
            r.firehol == (Firehol { level1: false, level2: true, level3: true }),
            r.sources@.len() == 0,
    {
        Settings { target: IptablesTarget::Drop, firehol: Firehol::default(), sources: Vec::new() }
    }
}

} // verus!
