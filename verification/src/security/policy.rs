use super::capabilities::{
    capability_debug, contains_capability, copy_capabilities, has_capability, Capability,
    CapabilityView,
};
use super::SecurityError;
use crate::name_map::NameMap;
use crate::text::{concat2, concat3};
use vstd::prelude::*;

verus! {

/// A security policy: capabilities allowed and denied, and what holds of the others.
#[derive(Debug, Clone)]
pub struct SecurityPolicy {
    pub id: String,
    pub description: String,
    pub allowed_capabilities: Vec<Capability>,
    pub denied_capabilities: Vec<Capability>,
    /// `true`: a capability in neither list is refused; `false`: it is allowed.
    pub default_deny: bool,
}

/// Whether a policy allows a capability: never when it is denied, always when it is allowed
/// and not denied, and otherwise as the default says.
pub open spec fn policy_allows(p: SecurityPolicy, c: CapabilityView) -> bool {
    if has_capability(p.denied_capabilities@, c) {
        false
    } else if has_capability(p.allowed_capabilities@, c) {
        true
    } else {
        !p.default_deny
    }
}

/// Whether `b` is a copy of `a`, field by field.
pub open spec fn same_policy(a: SecurityPolicy, b: SecurityPolicy) -> bool {
    &&& a.id == b.id
    &&& a.description == b.description
    &&& a.allowed_capabilities@ == b.allowed_capabilities@
    &&& a.denied_capabilities@ == b.denied_capabilities@
    &&& a.default_deny == b.default_deny
}

impl SecurityPolicy {
    /// A policy with empty lists that refuses by default.
    pub fn new(id: &str, description: &str) -> (r: SecurityPolicy)
        ensures
            r.id@ == id@,
            r.description@ == description@,
            r.allowed_capabilities@ == Seq::<Capability>::empty(),
            r.denied_capabilities@ == Seq::<Capability>::empty(),
            r.default_deny,
    {
        SecurityPolicy {
            id: id.to_string(),
            description: description.to_string(),
            allowed_capabilities: Vec::new(),
            denied_capabilities: Vec::new(),
            default_deny: true,
        }
    }

    /// The policy with its allowed list replaced by `capabilities`.
    pub fn with_allowed_capabilities(self, capabilities: Vec<Capability>) -> (r: SecurityPolicy)
        ensures
            r == (SecurityPolicy { allowed_capabilities: capabilities, ..self }),
    {
        let mut p = self;
        p.allowed_capabilities = capabilities;
        p
    }

    /// The policy with its denied list replaced by `capabilities`.
    pub fn with_denied_capabilities(self, capabilities: Vec<Capability>) -> (r: SecurityPolicy)
        ensures
            r == (SecurityPolicy { denied_capabilities: capabilities, ..self }),
    {
        let mut p = self;
        p.denied_capabilities = capabilities;
        p
    }

    /// The policy with its default set to `default_deny`.
    pub fn with_default_deny(self, default_deny: bool) -> (r: SecurityPolicy)
        ensures
            r == (SecurityPolicy { default_deny, ..self }),
    {
        let mut p = self;
        p.default_deny = default_deny;
        p
    }

    /// Whether the policy allows `capability`.
    pub fn allows_capability(&self, capability: &Capability) -> (r: bool)
        ensures
            r == policy_allows(*self, capability@),
    {
        if contains_capability(&self.denied_capabilities, capability) {
            return false;
        }
        if contains_capability(&self.allowed_capabilities, capability) {
            return true;
        }
        !self.default_deny
    }

    /// A copy of the policy.
    pub fn duplicate(&self) -> (r: SecurityPolicy)
        ensures
            same_policy(*self, r),
    {
        SecurityPolicy {
            id: self.id.clone(),
            description: self.description.clone(),
            allowed_capabilities: copy_capabilities(&self.allowed_capabilities),
            denied_capabilities: copy_capabilities(&self.denied_capabilities),
            default_deny: self.default_deny,
        }
    }
}

/// What the policies say of a capability for a resource: the answer, or the message of the
/// error. A resource without policy is an error; so is a capability that its policy neither
/// allows nor denies while refusing by default.
pub open spec fn resource_answer(
    policies: Map<Seq<char>, SecurityPolicy>,
    resource: Seq<char>,
    c: CapabilityView,
) -> Result<bool, Seq<char>> {
    if !policies.dom().contains(resource) {
        Err("No policy defined for resource "@ + resource)
    } else {
        let p = policies[resource];
        if has_capability(p.denied_capabilities@, c) {
            Ok(false)
        } else if has_capability(p.allowed_capabilities@, c) {
            Ok(true)
        } else if p.default_deny {
            Err("Capability "@ + capability_debug(c) + " is not explicitly allowed for resource "@ + resource)
        } else {
            Ok(true)
        }
    }
}

/// Security policies, each filed under its id.
pub struct PolicyManager {
    policies: NameMap<SecurityPolicy>,
}

impl View for PolicyManager {
    type V = Map<Seq<char>, SecurityPolicy>;

    closed spec fn view(&self) -> Map<Seq<char>, SecurityPolicy> {
        self.policies.view()
    }
}

impl PolicyManager {
    #[verifier::type_invariant]
    closed spec fn inv(self) -> bool {
        self.policies.wf()
    }

    /// The ids of the policies in the order they were first added.
    pub closed spec fn order(self) -> Seq<Seq<char>> {
        self.policies.names()
    }

    /// A manager with no policy.
    pub fn new() -> (r: PolicyManager)
        ensures
            r@ == Map::<Seq<char>, SecurityPolicy>::empty(),
    {
        PolicyManager { policies: NameMap::new() }
    }

    /// Files `policy` under its id, replacing any policy of that id. Always succeeds.
    pub fn add_policy(&mut self, policy: SecurityPolicy) -> (r: Result<(), SecurityError>)
        ensures
            r is Ok,
            final(self)@ == old(self)@.insert(policy.id@, policy),
    {
        proof { use_type_invariant(&*self); }
        let mut policies = NameMap::new();
        std::mem::swap(&mut policies, &mut self.policies);
        let id = policy.id.clone();
        policies.insert(id.as_str(), policy);
        self.policies = policies;
        Ok(())
    }

    /// A copy of the policy filed under `policy_id`.
    pub fn get_policy(&self, policy_id: &str) -> (r: Result<SecurityPolicy, SecurityError>)
        ensures
            self@.dom().contains(policy_id@) ==> (r matches Ok(p) && same_policy(self@[policy_id@], p)),
            !self@.dom().contains(policy_id@) ==> (r matches Err(SecurityError::PermissionDenied(m))
                && m@ == "Policy "@ + policy_id@ + " not found"@),
    {
        proof { use_type_invariant(self); }
        match self.policies.get(policy_id) {
            Some(p) => Ok(p.duplicate()),
            None => Err(SecurityError::PermissionDenied(concat3("Policy ", policy_id, " not found"))),
        }
    }

    /// Whether the resource `resource_id` may use `capability`, by the policy filed under the
    /// resource's id.
    pub fn check_resource_capability(&self, resource_id: &str, capability: &Capability) -> (r: Result<bool, SecurityError>)
        ensures
            match resource_answer(self@, resource_id@, capability@) {
                Ok(b) => r == Ok::<bool, SecurityError>(b),
                Err(msg) => r matches Err(SecurityError::PermissionDenied(m)) && m@ == msg,
            },
    {
        proof { use_type_invariant(self); }
        match self.policies.get(resource_id) {
            Some(policy) => {
                if contains_capability(&policy.denied_capabilities, capability) {
                    Ok(false)
                } else if contains_capability(&policy.allowed_capabilities, capability) {
                    Ok(true)
                } else if policy.default_deny {
                    let cap = capability.debug_text();
                    let head = concat3("Capability ", cap.as_str(), " is not explicitly allowed for resource ");
                    Err(SecurityError::PermissionDenied(concat2(head.as_str(), resource_id)))
                } else {
                    Ok(true)
                }
            },
            None => Err(SecurityError::PermissionDenied(concat2("No policy defined for resource ", resource_id))),
        }
    }

    /// Removes the policy filed under `policy_id`; an error when there is none.
    pub fn remove_policy(&mut self, policy_id: &str) -> (r: Result<(), SecurityError>)
        ensures
            final(self)@ == old(self)@.remove(policy_id@),
            old(self)@.dom().contains(policy_id@) <==> r is Ok,
            r matches Err(e) ==> (e matches SecurityError::PermissionDenied(m)
                && m@ == "Policy "@ + policy_id@ + " not found"@),
    {
        proof { use_type_invariant(&*self); }
        let mut policies = NameMap::new();
        std::mem::swap(&mut policies, &mut self.policies);
        let removed = policies.remove(policy_id);
        self.policies = policies;
        match removed {
            Some(_) => Ok(()),
            None => Err(SecurityError::PermissionDenied(concat3("Policy ", policy_id, " not found"))),
        }
    }

    /// The ids of all policies, each once, in the order they were first added.
    pub fn list_policies(&self) -> (r: Result<Vec<String>, SecurityError>)
        ensures
            r matches Ok(ids) && ids@.map_values(|s: String| s@) == self.order(),
            self.order().to_set() == self@.dom(),
            self.order().no_duplicates(),
    {
        proof { use_type_invariant(self); }
        Ok(self.policies.names_vec())
    }
}

impl Default for PolicyManager {
    fn default() -> (r: PolicyManager)
        ensures
            r@ == Map::<Seq<char>, SecurityPolicy>::empty(),
    {
        PolicyManager::new()
    }
}

/// Where the manager answers, it answers as the resource's policy: `Ok(b)` means that
/// `b` is whether the policy allows the capability.
pub proof fn lemma_answer_matches_policy(
    policies: Map<Seq<char>, SecurityPolicy>,
    resource: Seq<char>,
    c: CapabilityView,
)
    requires
        resource_answer(policies, resource, c) is Ok,
    ensures
        policies.dom().contains(resource),
        resource_answer(policies, resource, c) == Ok::<bool, Seq<char>>(policy_allows(policies[resource], c)),
{
}

/// Denial wins over allowance and over the default.
pub proof fn lemma_policy_denial_wins(p: SecurityPolicy, c: CapabilityView)
    requires
        has_capability(p.denied_capabilities@, c),
    ensures
        !policy_allows(p, c),
{
}

/// A policy that allows by default allows everything it does not deny; one that refuses by
/// default allows only what it lists as allowed.
pub proof fn lemma_policy_default(p: SecurityPolicy, c: CapabilityView)
    ensures
        !p.default_deny ==> (policy_allows(p, c) <==> !has_capability(p.denied_capabilities@, c)),
        p.default_deny ==> (policy_allows(p, c) ==> has_capability(p.allowed_capabilities@, c)),
{
}

/// A policy that is added can be read back, and answers for its id.
pub proof fn lemma_add_then_get(policies: Map<Seq<char>, SecurityPolicy>, p: SecurityPolicy)
    ensures
        policies.insert(p.id@, p).dom().contains(p.id@),
        policies.insert(p.id@, p)[p.id@] == p,
{
}

} // verus!
