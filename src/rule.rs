use vstd::prelude::*;

verus! {

/// A provider-side record routing one address to a destination mailbox.
#[derive(Debug, Clone)]
pub struct ForwardingRule {
    /// Identifier assigned by the provider.
    pub id: String,
    /// The routed address, `local-part@domain`.
    pub email: String,
    pub enabled: bool,
    /// The mailbox the address forwards to.
    pub destination: String,
}

/// The address `local@domain`.
pub open spec fn address_of(local: Seq<char>, domain: Seq<char>) -> Seq<char> {
    local + seq!['@'] + domain
}

/// Some rule of `rules` routes `addr`.
pub open spec fn is_routed(rules: Seq<ForwardingRule>, addr: Seq<char>) -> bool {
    exists|i: int| 0 <= i < rules.len() && (#[trigger] rules[i]).email@ == addr
}

/// Whether some rule of `rules` routes `addr`.
pub fn routes_address(rules: &Vec<ForwardingRule>, addr: &String) -> (r: bool)
    ensures
        r == is_routed(rules@, addr@),
{
    let mut i: usize = 0;
    while i < rules.len()
        invariant
            i <= rules.len(),
            forall|j: int| 0 <= j < i ==> (#[trigger] rules@[j]).email@ != addr@,
        decreases rules.len() - i,
    {
        if rules[i].email == *addr {
            return true;
        }
        i = i + 1;
    }
    false
}

} // verus!
