//! The registry of harnesses, keyed by harness id.
//!
//! Application code resolves a harness by id or by name through the
//! registry, so harness-specific knowledge stays in the harness modules.

use vstd::prelude::*;
use crate::domain::harness::{HarnessId, harness_from_name};
use crate::harness::traits::{
    Harness, HarnessError, DetectionResult, PortableEnvironment, PrepareRuntimeRequest, PreparedRuntime,
};
use crate::harness::pi::{PiHarness, PiInstallation, pi_prepare_outcome};
use crate::harness::aider::AiderHarness;

verus! {

/// A registered harness.
#[derive(Debug, Clone, Copy)]
pub enum RegisteredHarness {
    Pi(PiHarness),
    Aider(AiderHarness),
}

impl Harness for RegisteredHarness {
    open spec fn harness_id(&self) -> HarnessId {
        match self {
            RegisteredHarness::Pi(_) => HarnessId::Pi,
            RegisteredHarness::Aider(_) => HarnessId::Aider,
        }
    }

    fn identity(&self) -> (r: HarnessId) {
        match self {
            RegisteredHarness::Pi(h) => h.identity(),
            RegisteredHarness::Aider(h) => h.identity(),
        }
    }
}

/// The ids of a list of harnesses.
pub open spec fn ids_of(hs: Seq<RegisteredHarness>) -> Seq<HarnessId> {
    hs.map_values(|h: RegisteredHarness| h.harness_id())
}

/// The registry of harnesses; each id occurs at most once.
#[derive(Debug)]
pub struct HarnessRegistry {
    harnesses: Vec<RegisteredHarness>,
}

impl View for HarnessRegistry {
    type V = Seq<HarnessId>;

    closed spec fn view(&self) -> Seq<HarnessId> {
        ids_of(self.harnesses@)
    }
}

impl HarnessRegistry {
    #[verifier::type_invariant]
    spec fn inv(&self) -> bool {
        self@.no_duplicates()
    }

    /// An empty registry.
    pub fn new() -> (r: Self)
        ensures
            r@ == Seq::<HarnessId>::empty(),
    {
        let r = HarnessRegistry { harnesses: Vec::new() };
        assert(r@ =~= Seq::<HarnessId>::empty());
        r
    }

    /// A registry with the built-in harnesses: Pi (fully supported) and
    /// Aider (detection only).
    pub fn with_defaults() -> (r: Self)
        ensures
            r@ == seq![HarnessId::Pi, HarnessId::Aider],
    {
        let mut r = Self::new();
        r.register(RegisteredHarness::Pi(PiHarness::new()));
        r.register(RegisteredHarness::Aider(AiderHarness::new()));
        proof {
            assert(Seq::<HarnessId>::empty().push(HarnessId::Pi) =~= seq![HarnessId::Pi]);
            assert(!seq![HarnessId::Pi].contains(HarnessId::Aider)) by {
                assert(seq![HarnessId::Pi][0] != HarnessId::Aider);
            }
            assert(seq![HarnessId::Pi].push(HarnessId::Aider) =~= seq![HarnessId::Pi, HarnessId::Aider]);
        }
        r
    }

    /// Position of the harness with id `id`.
    fn position(&self, id: HarnessId) -> (r: Option<usize>)
        ensures
            match r {
                Some(i) => i < self@.len() && self@[i as int] == id,
                None => !self@.contains(id),
            },
    {
        let mut i: usize = 0;
        while i < self.harnesses.len()
            invariant
                i <= self.harnesses@.len(),
                self@ == ids_of(self.harnesses@),
                forall|j: int| 0 <= j < i ==> self@[j] != id,
            decreases self.harnesses@.len() - i,
        {
            let h = self.harnesses[i].identity();
            if h == id {
                return Some(i);
            }
            i = i + 1;
        }
        None
    }

    /// Register a harness, replacing one with the same id.
    pub fn register(&mut self, harness: RegisteredHarness)
        ensures
            final(self)@ == if old(self)@.contains(harness.harness_id()) {
                old(self)@
            } else {
                old(self)@.push(harness.harness_id())
            },
    {
        proof {
            use_type_invariant(&*self);
        }
        let id = harness.identity();
        let pos = self.position(id);
        let ghost s = self.harnesses@;
        let mut hs: Vec<RegisteredHarness> = Vec::new();
        std::mem::swap(&mut hs, &mut self.harnesses);
        match pos {
            Some(i) => {
                hs.set(i, harness);
                assert(ids_of(hs@) =~= ids_of(s));
            },
            None => {
                hs.push(harness);
                assert(ids_of(hs@) =~= ids_of(s).push(id));
            },
        }
        self.harnesses = hs;
    }

    /// The harness with id `id`.
    pub fn get(&self, id: HarnessId) -> (r: Result<&RegisteredHarness, HarnessError>)
        ensures
            self@.contains(id) ==> (r matches Ok(h) && h.harness_id() == id),
            !self@.contains(id) ==> r == Err::<&RegisteredHarness, HarnessError>(
                HarnessError::NotRegistered { id },
            ),
    {
        match self.position(id) {
            Some(i) => Ok(&self.harnesses[i]),
            None => Err(HarnessError::NotRegistered { id }),
        }
    }

    /// The harness named `name` (case-insensitively).
    pub fn by_name(&self, name: &str) -> (r: Result<&RegisteredHarness, HarnessError>)
        ensures
            match harness_from_name(name@) {
                None => r matches Err(HarnessError::Unsupported { name: n }) && n@ == name@,
                Some(id) => if self@.contains(id) {
                    r matches Ok(h) && h.harness_id() == id
                } else {
                    r == Err::<&RegisteredHarness, HarnessError>(HarnessError::NotRegistered { id })
                },
            },
    {
        match HarnessId::from_name(name) {
            None => Err(HarnessError::Unsupported { name: String::from_str(name) }),
            Some(id) => self.get(id),
        }
    }

    /// The registered ids.
    pub fn supported_ids(&self) -> (r: Vec<HarnessId>)
        ensures
            r@ == self@,
            r@.no_duplicates(),
    {
        proof {
            use_type_invariant(self);
        }
        let mut out: Vec<HarnessId> = Vec::new();
        let mut i: usize = 0;
        while i < self.harnesses.len()
            invariant
                i <= self.harnesses@.len(),
                self@ == ids_of(self.harnesses@),
                out@ == self@.take(i as int),
            decreases self.harnesses@.len() - i,
        {
            out.push(self.harnesses[i].identity());
            assert(out@ =~= self@.take(i + 1));
            i = i + 1;
        }
        assert(self@.take(self.harnesses@.len() as int) =~= self@);
        out
    }

    /// The detection result of the harness with id `id`: for Pi, the
    /// detected installation; for Aider, what its detection found.
    pub fn detect(
        &self,
        id: HarnessId,
        pi: &PiInstallation,
        aider: Result<DetectionResult, HarnessError>,
    ) -> (r: Result<DetectionResult, HarnessError>)
        ensures
            !self@.contains(id) ==> r == Err::<DetectionResult, HarnessError>(
                HarnessError::NotRegistered { id },
            ),
            self@.contains(id) && id == HarnessId::Pi ==> (r matches Ok(d) && d.harness_id
                == HarnessId::Pi && d.root@ == pi.root_view() && d.version@ == pi.version_view()),
            self@.contains(id) && id == HarnessId::Aider ==> r == aider,
    {
        let h = match self.get(id) {
            Ok(h) => h,
            Err(e) => {
                return Err(e);
            },
        };
        match h {
            RegisteredHarness::Pi(p) => Ok(p.detect(pi)),
            RegisteredHarness::Aider(_) => aider,
        }
    }

    /// The portable environment of the harness with id `id` at a detected
    /// Pi installation.
    pub fn discover(&self, id: HarnessId, pi: &PiInstallation) -> (r: Result<
        PortableEnvironment,
        HarnessError,
    >)
        ensures
            !self@.contains(id) ==> r == Err::<PortableEnvironment, HarnessError>(
                HarnessError::NotRegistered { id },
            ),
            self@.contains(id) && id == HarnessId::Pi ==> (r matches Ok(e) && e.version@
                == pi.version_view() && e.source_root@ == pi.root_view()),
            self@.contains(id) && id == HarnessId::Aider ==> r matches Err(
                HarnessError::NotImplemented { .. },
            ),
    {
        let h = match self.get(id) {
            Ok(h) => h,
            Err(e) => {
                return Err(e);
            },
        };
        match h {
            RegisteredHarness::Pi(p) => Ok(p.discover(pi)),
            RegisteredHarness::Aider(a) => a.discover(),
        }
    }

    /// Prepare the runtime of the harness with id `id` (`node` is the output
    /// of `node --version`, for Pi).
    pub fn prepare_runtime(
        &self,
        id: HarnessId,
        request: &PrepareRuntimeRequest,
        node: Option<&str>,
    ) -> (r: Result<PreparedRuntime, HarnessError>)
        ensures
            !self@.contains(id) ==> r == Err::<PreparedRuntime, HarnessError>(
                HarnessError::NotRegistered { id },
            ),
            self@.contains(id) && id == HarnessId::Aider ==> r matches Err(
                HarnessError::NotImplemented { .. },
            ),
            self@.contains(id) && id == HarnessId::Pi ==> pi_prepare_outcome(
                request.launch,
                match node {
                    Some(o) => Some(o@),
                    None => None,
                },
                r,
            ),
    {
        let h = match self.get(id) {
            Ok(h) => h,
            Err(e) => {
                return Err(e);
            },
        };
        match h {
            RegisteredHarness::Pi(p) => p.prepare_runtime(request, node),
            RegisteredHarness::Aider(a) => a.prepare_runtime(),
        }
    }
}

impl Default for HarnessRegistry {
    fn default() -> (r: Self)
        ensures
            r@ == seq![HarnessId::Pi, HarnessId::Aider],
    {
        Self::with_defaults()
    }
}

} // verus!
