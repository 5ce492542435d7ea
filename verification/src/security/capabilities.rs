use crate::clock::unix_time_secs;
use crate::text::{concat3, debug_quote, debug_quoted};
use vstd::prelude::*;

verus! {

/// A right that a capability token can carry.
#[derive(Debug, Clone, PartialEq, Eq, Hash)]
pub enum Capability {
    NetworkAccess,
    FileSystemRead,
    FileSystemWrite,
    ProcessSpawn,
    SystemCall(String),
    Custom(String),
}

/// A capability as a mathematical value: the texts it carries are compared by their characters.
pub enum CapabilityView {
    NetworkAccess,
    FileSystemRead,
    FileSystemWrite,
    ProcessSpawn,
    SystemCall(Seq<char>),
    Custom(Seq<char>),
}

impl View for Capability {
    type V = CapabilityView;

    open spec fn view(&self) -> CapabilityView {
        match self {
            Capability::NetworkAccess => CapabilityView::NetworkAccess,
            Capability::FileSystemRead => CapabilityView::FileSystemRead,
            Capability::FileSystemWrite => CapabilityView::FileSystemWrite,
            Capability::ProcessSpawn => CapabilityView::ProcessSpawn,
            Capability::SystemCall(s) => CapabilityView::SystemCall(s@),
            Capability::Custom(s) => CapabilityView::Custom(s@),
        }
    }
}

/// The text that `Debug` formatting gives for a capability.
pub open spec fn capability_debug(c: CapabilityView) -> Seq<char> {
    match c {
        CapabilityView::NetworkAccess => "NetworkAccess"@,
        CapabilityView::FileSystemRead => "FileSystemRead"@,
        CapabilityView::FileSystemWrite => "FileSystemWrite"@,
        CapabilityView::ProcessSpawn => "ProcessSpawn"@,
        CapabilityView::SystemCall(s) => "SystemCall("@ + debug_quoted(s) + ")"@,
        CapabilityView::Custom(s) => "Custom("@ + debug_quoted(s) + ")"@,
    }
}

/// Whether `c` occurs among `caps`.
pub open spec fn has_capability(caps: Seq<Capability>, c: CapabilityView) -> bool {
    exists|i: int| 0 <= i < caps.len() && (#[trigger] caps[i])@ == c
}

/// The set of capabilities listed in `caps`.
pub open spec fn capability_set(caps: Seq<Capability>) -> Set<CapabilityView> {
    Set::new(|c: CapabilityView| has_capability(caps, c))
}

/// Whether no capability is listed twice in `caps`.
pub open spec fn distinct_capabilities(caps: Seq<Capability>) -> bool {
    forall|i: int, j: int|
        0 <= i < caps.len() && 0 <= j < caps.len() && i != j ==> (#[trigger] caps[i])@ != (#[trigger] caps[j])@
}

impl Capability {
    /// Whether the two capabilities are the same right.
    pub fn same_as(&self, other: &Capability) -> (r: bool)
        ensures
            r == (self@ == other@),
    {
        match self {
            Capability::NetworkAccess => match *other {
                Capability::NetworkAccess => true,
                _ => false,
            },
            Capability::FileSystemRead => match *other {
                Capability::FileSystemRead => true,
                _ => false,
            },
            Capability::FileSystemWrite => match *other {
                Capability::FileSystemWrite => true,
                _ => false,
            },
            Capability::ProcessSpawn => match *other {
                Capability::ProcessSpawn => true,
                _ => false,
            },
            Capability::SystemCall(a) => match *other {
                Capability::SystemCall(ref b) => *a == *b,
                _ => false,
            },
            Capability::Custom(a) => match *other {
                Capability::Custom(ref b) => *a == *b,
                _ => false,
            },
        }
    }

    /// A copy of this capability.
    pub fn duplicate(&self) -> (r: Capability)
        ensures
            r == *self,
    {
        match self {
            Capability::NetworkAccess => Capability::NetworkAccess,
            Capability::FileSystemRead => Capability::FileSystemRead,
            Capability::FileSystemWrite => Capability::FileSystemWrite,
            Capability::ProcessSpawn => Capability::ProcessSpawn,
            Capability::SystemCall(s) => Capability::SystemCall(s.clone()),
            Capability::Custom(s) => Capability::Custom(s.clone()),
        }
    }

    /// The capability as `Debug` formatting writes it.
    pub fn debug_text(&self) -> (r: String)
        ensures
            r@ == capability_debug(self@),
    {
        match self {
            Capability::NetworkAccess => "NetworkAccess".to_string(),
            Capability::FileSystemRead => "FileSystemRead".to_string(),
            Capability::FileSystemWrite => "FileSystemWrite".to_string(),
            Capability::ProcessSpawn => "ProcessSpawn".to_string(),
            Capability::SystemCall(s) => {
                let q = debug_quote(s.as_str());
                concat3("SystemCall(", q.as_str(), ")")
            },
            Capability::Custom(s) => {
                let q = debug_quote(s.as_str());
                concat3("Custom(", q.as_str(), ")")
            },
        }
    }
}

/// Whether `c` is listed in `caps`.
pub fn contains_capability(caps: &Vec<Capability>, c: &Capability) -> (r: bool)
    ensures
        r == has_capability(caps@, c@),
{
    let mut i: usize = 0;
    while i < caps.len()
        invariant
            i <= caps@.len(),
            forall|j: int| 0 <= j < i ==> (#[trigger] caps@[j])@ != c@,
        decreases caps@.len() - i,
    {
        if caps[i].same_as(c) {
            return true;
        }
        i = i + 1;
    }
    false
}

/// A copy of a list of capabilities.
pub fn copy_capabilities(caps: &Vec<Capability>) -> (r: Vec<Capability>)
    ensures
        r@ == caps@,
{
    let mut r: Vec<Capability> = Vec::new();
    let mut i: usize = 0;
    while i < caps.len()
        invariant
            i <= caps@.len(),
            r@ == caps@.subrange(0, i as int),
        decreases caps@.len() - i,
    {
        r.push(caps[i].duplicate());
        i = i + 1;
    }
    assert(caps@.subrange(0, caps@.len() as int) =~= caps@);
    r
}

/// A token as a mathematical value.
pub struct TokenView {
    pub id: Seq<char>,
    pub capabilities: Set<CapabilityView>,
    pub expiry: Option<u64>,
}

/// Whether a token is expired at time `now` (seconds since the Unix epoch): it has an expiry
/// and `now` is past it.
pub open spec fn token_expired_at(t: TokenView, now: u64) -> bool {
    match t.expiry {
        Some(e) => now > e,
        None => false,
    }
}

/// Whether a token grants every capability in `required` at time `now`.
pub open spec fn token_grants(t: TokenView, required: Set<CapabilityView>, now: u64) -> bool {
    !token_expired_at(t, now) && required.subset_of(t.capabilities)
}

/// A bearer token naming a set of capabilities, with an optional expiry time.
pub struct CapabilityToken {
    id: String,
    capabilities: Vec<Capability>,
    expiry: Option<u64>,
}

impl View for CapabilityToken {
    type V = TokenView;

    closed spec fn view(&self) -> TokenView {
        TokenView { id: self.id@, capabilities: capability_set(self.capabilities@), expiry: self.expiry }
    }
}

impl CapabilityToken {
    #[verifier::type_invariant]
    closed spec fn inv(self) -> bool {
        distinct_capabilities(self.capabilities@)
    }

    /// A token named `id`, with no capability and no expiry.
    pub fn new(id: &str) -> (r: CapabilityToken)
        ensures
            r@.id == id@,
            r@.capabilities == Set::<CapabilityView>::empty(),
            r@.expiry is None,
    {
        let r = CapabilityToken { id: id.to_string(), capabilities: Vec::new(), expiry: None };
        assert(capability_set(r.capabilities@) =~= Set::<CapabilityView>::empty());
        r
    }

    fn add(caps: &mut Vec<Capability>, c: Capability)
        requires
            distinct_capabilities(old(caps)@),
        ensures
            distinct_capabilities(final(caps)@),
            capability_set(final(caps)@) == capability_set(old(caps)@).insert(c@),
    {
        if !contains_capability(caps, &c) {
            let ghost before = caps@;
            let ghost cv = c@;
            caps.push(c);
            proof {
                assert forall|x: CapabilityView| #[trigger] capability_set(caps@).contains(x) <==> capability_set(before).insert(cv).contains(x) by {
                    if has_capability(before, x) {
                        let j = choose|j: int| 0 <= j < before.len() && (#[trigger] before[j])@ == x;
                        assert(caps@[j] == before[j]);
                    }
                    if x == cv {
                        assert(caps@[before.len() as int]@ == x);
                    }
                    if has_capability(caps@, x) {
                        let j = choose|j: int| 0 <= j < caps@.len() && (#[trigger] caps@[j])@ == x;
                        if j < before.len() {
                            assert(caps@[j] == before[j]);
                        }
                    }
                }
                assert(capability_set(caps@) =~= capability_set(before).insert(cv));
            }
        } else {
            assert(capability_set(caps@) =~= capability_set(caps@).insert(c@));
        }
    }

    /// The token with `capability` added to its set.
    pub fn with_capability(self, capability: Capability) -> (r: CapabilityToken)
        ensures
            r@.id == self@.id,
            r@.capabilities == self@.capabilities.insert(capability@),
            r@.expiry == self@.expiry,
    {
        proof { use_type_invariant(&self); }
        let CapabilityToken { id, mut capabilities, expiry } = self;
        Self::add(&mut capabilities, capability);
        CapabilityToken { id, capabilities, expiry }
    }

    /// The token with every capability of `capabilities` added to its set.
    pub fn with_capabilities(self, capabilities: Vec<Capability>) -> (r: CapabilityToken)
        ensures
            r@.id == self@.id,
            r@.capabilities == self@.capabilities.union(capability_set(capabilities@)),
            r@.expiry == self@.expiry,
    {
        proof { use_type_invariant(&self); }
        let ghost start = self@.capabilities;
        let CapabilityToken { id, capabilities: mut caps, expiry } = self;
        let mut i: usize = 0;
        while i < capabilities.len()
            invariant
                i <= capabilities@.len(),
                distinct_capabilities(caps@),
                capability_set(caps@) == start.union(capability_set(capabilities@.subrange(0, i as int))),
            decreases capabilities@.len() - i,
        {
            let ghost prev = capabilities@.subrange(0, i as int);
            let ghost next = capabilities@.subrange(0, i as int + 1);
            Self::add(&mut caps, capabilities[i].duplicate());
            proof {
                assert forall|x: CapabilityView| #[trigger] capability_set(next).contains(x) <==> capability_set(prev).insert(capabilities@[i as int]@).contains(x) by {
                    if has_capability(next, x) {
                        let j = choose|j: int| 0 <= j < next.len() && (#[trigger] next[j])@ == x;
                        if j < i {
                            assert(prev[j] == next[j]);
                        }
                    }
                    if has_capability(prev, x) {
                        let j = choose|j: int| 0 <= j < prev.len() && (#[trigger] prev[j])@ == x;
                        assert(next[j] == prev[j]);
                    }
                    if x == capabilities@[i as int]@ {
                        assert(next[i as int]@ == x);
                    }
                }
                assert(capability_set(next) =~= capability_set(prev).insert(capabilities@[i as int]@));
                assert(start.union(capability_set(next)) =~= start.union(capability_set(prev)).insert(capabilities@[i as int]@));
            }
            i = i + 1;
        }
        assert(capabilities@.subrange(0, capabilities@.len() as int) =~= capabilities@);
        CapabilityToken { id, capabilities: caps, expiry }
    }

    /// The token with its expiry set to `timestamp` (seconds since the Unix epoch).
    pub fn with_expiry(self, timestamp: u64) -> (r: CapabilityToken)
        ensures
            r@.id == self@.id,
            r@.capabilities == self@.capabilities,
            r@.expiry == Some(timestamp),
    {
        proof { use_type_invariant(&self); }
        let CapabilityToken { id, capabilities, expiry: _ } = self;
        CapabilityToken { id, capabilities, expiry: Some(timestamp) }
    }

    /// The token's name.
    pub fn id(&self) -> (r: &str)
        ensures
            r@ == self@.id,
    {
        self.id.as_str()
    }

    /// The token's capabilities, each listed once.
    pub fn capabilities(&self) -> (r: &Vec<Capability>)
        ensures
            capability_set(r@) == self@.capabilities,
            distinct_capabilities(r@),
    {
        proof { use_type_invariant(self); }
        &self.capabilities
    }

    /// Whether the token is expired at time `now`.
    pub fn is_expired_at(&self, now: u64) -> (r: bool)
        ensures
            r == token_expired_at(self@, now),
    {
        match self.expiry {
            Some(e) => now > e,
            None => false,
        }
    }

    /// Whether the token is expired by the system clock. A token without expiry never is; when
    /// the clock cannot be read (it is earlier than the Unix epoch), a token with an expiry
    /// counts as expired.
    pub fn is_expired(&self) -> (r: bool)
        ensures
            self@.expiry is None ==> !r,
    {
        match self.expiry {
            Some(_) => {
                match unix_time_secs() {
                    Ok(now) => self.is_expired_at(now),
                    Err(_) => true,
                }
            },
            None => false,
        }
    }

    /// Whether the token grants every capability in `required` at time `now`.
    pub fn verify_at(&self, required: &Vec<Capability>, now: u64) -> (r: bool)
        ensures
            r == token_grants(self@, capability_set(required@), now),
    {
        if self.is_expired_at(now) {
            return false;
        }
        let mut i: usize = 0;
        while i < required.len()
            invariant
                i <= required@.len(),
                capability_set(required@.subrange(0, i as int)).subset_of(capability_set(self.capabilities@)),
            decreases required@.len() - i,
        {
            if !contains_capability(&self.capabilities, &required[i]) {
                assert(capability_set(required@).contains(required@[i as int]@));
                return false;
            }
            proof {
                let next = required@.subrange(0, i as int + 1);
                assert forall|x: CapabilityView| capability_set(next).contains(x) implies capability_set(self.capabilities@).contains(x) by {
                    let j = choose|j: int| 0 <= j < next.len() && (#[trigger] next[j])@ == x;
                    if j < i {
                        assert(required@.subrange(0, i as int)[j] == next[j]);
                    }
                }
            }
            i = i + 1;
        }
        assert(required@.subrange(0, required@.len() as int) =~= required@);
        true
    }

    /// Whether the token grants every capability in `required` by the system clock. An expired
    /// token grants nothing; a token without expiry grants exactly the capabilities it holds.
    pub fn verify(&self, required: &Vec<Capability>) -> (r: bool)
        ensures
            r ==> capability_set(required@).subset_of(self@.capabilities),
            self@.expiry is None ==> (r == capability_set(required@).subset_of(self@.capabilities)),
    {
        if self.is_expired() {
            return false;
        }
        self.verify_at(required, 0)
    }
}

/// A token that is not expired at a time grants at that time exactly the sets of capabilities it
/// holds: before its expiry, or always when it has none.
pub proof fn lemma_unexpired_grants_held(t: TokenView, required: Set<CapabilityView>, now: u64)
    requires
        t.expiry matches Some(e) ==> now <= e,
    ensures
        token_grants(t, required, now) == required.subset_of(t.capabilities),
{
}

/// A token grants any smaller set of capabilities than one it grants.
pub proof fn lemma_grant_monotone(t: TokenView, required: Set<CapabilityView>, fewer: Set<CapabilityView>, now: u64)
    requires
        token_grants(t, required, now),
        fewer.subset_of(required),
    ensures
        token_grants(t, fewer, now),
{
}

/// A token that is not expired grants the capabilities it was given.
pub proof fn lemma_grants_given(t: TokenView, given: Set<CapabilityView>, now: u64)
    requires
        !token_expired_at(t, now),
        given.subset_of(t.capabilities),
    ensures
        token_grants(t, given, now),
{
}

/// Once expired, a token stays expired: expiry only moves forward in time.
pub proof fn lemma_expiry_monotone(t: TokenView, now: u64, later: u64)
    requires
        token_expired_at(t, now),
        now <= later,
    ensures
        token_expired_at(t, later),
        forall|required: Set<CapabilityView>| !token_grants(t, required, later),
{
}

} // verus!
