use vstd::prelude::*;

verus! {

/// What to do with a packet.
#[derive(Debug, Clone, Copy, PartialEq, Eq, Structural, Hash)]
pub enum RoutingAction {
    Direct,
    Intranet,
    Proxy,
    Drop,
}

impl Default for RoutingAction {
    fn default() -> (r: Self)
        ensures
            r == RoutingAction::Direct,
    {
        RoutingAction::Direct
    }
}

impl RoutingAction {
    /// The lower-case name of the action, as written in rule files.
    pub open spec fn spec_name(self) -> Seq<char> {
        match self {
            RoutingAction::Direct => "direct"@,
            RoutingAction::Intranet => "intranet"@,
            RoutingAction::Proxy => "proxy"@,
            RoutingAction::Drop => "drop"@,
        }
    }

    /// The lower-case name of the action.
    pub fn to_string(&self) -> (s: String)
        ensures
            s@ == self.spec_name(),
    {
        match self {
            RoutingAction::Direct => "direct".to_string(),
            RoutingAction::Intranet => "intranet".to_string(),
            RoutingAction::Proxy => "proxy".to_string(),
            RoutingAction::Drop => "drop".to_string(),
        }
    }
}

} // verus!
