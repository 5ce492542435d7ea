use super::capabilities::{
    capability_debug, contains_capability, has_capability, Capability, CapabilityView,
};
use super::SecurityError;
use crate::name_map::NameMap;
use crate::text::concat2;
use vstd::prelude::*;

verus! {

/// What a resource may and may not do.
#[derive(Debug, Clone)]
pub struct PermissionPolicy {
    pub allowed_capabilities: Vec<Capability>,
    pub denied_capabilities: Vec<Capability>,
}

/// What a policy says of a capability: `Some(false)` when it is denied (denial comes first),
/// `Some(true)` when it is allowed, `None` when the policy does not name it.
pub open spec fn policy_answer(p: PermissionPolicy, c: CapabilityView) -> Option<bool> {
    if has_capability(p.denied_capabilities@, c) {
        Some(false)
    } else if has_capability(p.allowed_capabilities@, c) {
        Some(true)
    } else {
        None
    }
}

/// What the policies say of `capability` for `resource`: `None` when no policy of that resource
/// names it.
pub open spec fn permission_answer(
    policies: Map<Seq<char>, PermissionPolicy>,
    resource: Seq<char>,
    capability: CapabilityView,
) -> Option<bool> {
    if policies.dom().contains(resource) {
        policy_answer(policies[resource], capability)
    } else {
        None
    }
}

/// The message of the error for a resource and capability that no policy decides.
pub open spec fn undecided_message(resource: Seq<char>, capability: CapabilityView) -> Seq<char> {
    "No policy defined for resource "@ + resource + " with capability "@ + capability_debug(capability)
}

/// Permission policies, one per resource.
pub struct PermissionManager {
    policies: NameMap<PermissionPolicy>,
}

impl View for PermissionManager {
    type V = Map<Seq<char>, PermissionPolicy>;

    closed spec fn view(&self) -> Map<Seq<char>, PermissionPolicy> {
        self.policies.view()
    }
}

impl PermissionManager {
    #[verifier::type_invariant]
    closed spec fn inv(self) -> bool {
        self.policies.wf()
    }

    /// A manager with no policy.
    pub fn new() -> (r: PermissionManager)
        ensures
            r@ == Map::<Seq<char>, PermissionPolicy>::empty(),
    {
        PermissionManager { policies: NameMap::new() }
    }

    /// Sets the policy of `resource_id`, replacing any earlier one.
    pub fn add_policy(&mut self, resource_id: &str, policy: PermissionPolicy)
        ensures
            final(self)@ == old(self)@.insert(resource_id@, policy),
    {
        proof { use_type_invariant(&*self); }
        let mut policies = NameMap::new();
        std::mem::swap(&mut policies, &mut self.policies);
        policies.insert(resource_id, policy);
        self.policies = policies;
    }

    /// Whether `resource_id` may use `capability`: `Ok(false)` when its policy denies it,
    /// `Ok(true)` when its policy allows it, and an error when no policy of that resource names it.
    pub fn check_permission(&self, resource_id: &str, capability: &Capability) -> (r: Result<bool, SecurityError>)
        ensures
            match permission_answer(self@, resource_id@, capability@) {
                Some(b) => r == Ok::<bool, SecurityError>(b),
                None => r matches Err(SecurityError::PermissionDenied(m))
                    && m@ == undecided_message(resource_id@, capability@),
            },
    {
        proof { use_type_invariant(self); }
        match self.policies.get(resource_id) {
            Some(policy) => {
                if contains_capability(&policy.denied_capabilities, capability) {
                    return Ok(false);
                }
                if contains_capability(&policy.allowed_capabilities, capability) {
                    return Ok(true);
                }
            },
            None => {},
        }
        let head = concat2("No policy defined for resource ", resource_id);
        let middle = concat2(head.as_str(), " with capability ");
        let cap = capability.debug_text();
        let message = concat2(middle.as_str(), cap.as_str());
        Err(SecurityError::PermissionDenied(message))
    }

    /// Removes the policy of `resource_id`, if any.
    pub fn remove_policy(&mut self, resource_id: &str)
        ensures
            final(self)@ == old(self)@.remove(resource_id@),
    {
        proof { use_type_invariant(&*self); }
        let mut policies = NameMap::new();
        std::mem::swap(&mut policies, &mut self.policies);
        let _ = policies.remove(resource_id);
        self.policies = policies;
    }
}

impl Default for PermissionManager {
    fn default() -> (r: PermissionManager)
        ensures
            r@ == Map::<Seq<char>, PermissionPolicy>::empty(),
    {
        PermissionManager::new()
    }
}

/// Denial wins: a capability that a resource's policy denies is refused, whatever else the
/// policy allows.
pub proof fn lemma_denial_wins(
    policies: Map<Seq<char>, PermissionPolicy>,
    resource: Seq<char>,
    capability: CapabilityView,
)
    requires
        policies.dom().contains(resource),
        has_capability(policies[resource].denied_capabilities@, capability),
    ensures
        permission_answer(policies, resource, capability) == Some(false),
{
}

/// After a policy is set for a resource, the resource is answered by that policy alone.
pub proof fn lemma_answer_after_add(
    policies: Map<Seq<char>, PermissionPolicy>,
    resource: Seq<char>,
    policy: PermissionPolicy,
    capability: CapabilityView,
)
    ensures
        permission_answer(policies.insert(resource, policy), resource, capability)
            == policy_answer(policy, capability),
{
}

/// After the policy of a resource is removed, nothing is decided for it.
pub proof fn lemma_no_answer_after_remove(
    policies: Map<Seq<char>, PermissionPolicy>,
    resource: Seq<char>,
    capability: CapabilityView,
)
    ensures
        permission_answer(policies.remove(resource), resource, capability) is None,
{
}

} // verus!
