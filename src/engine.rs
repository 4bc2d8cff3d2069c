use crate::logging::Logging;
use vstd::prelude::*;

verus! {

/// The concrete features a registry can hold; callers that need more than
/// the common contract ask for the narrowed view of one kind.
#[derive(Clone, Copy, Debug, PartialEq, Eq, Structural)]
pub enum FeatureKind {
    Logging(Logging),
}

impl FeatureKind {
    /// The logging feature, when this is one.
    pub fn as_logging(&self) -> (r: Option<&Logging>)
        ensures
            match self {
                FeatureKind::Logging(l) => r == Some(l),
            },
    {
        match self {
            FeatureKind::Logging(l) => Some(l),
        }
    }
}

/// A registered feature, keyed by a stable numeric identifier.
#[derive(Clone, Copy, Debug, PartialEq, Eq, Structural)]
pub struct Descriptor {
    pub id: u64,
    pub version: u8,
    pub enabled: bool,
    pub kind: FeatureKind,
}

/// One entry of a desired patch with the outcome of the feature's update.
#[derive(Clone, Copy, Debug, PartialEq, Eq, Structural)]
pub struct Applied {
    pub feature: u64,
    /// `None` on success, else a failure reason code.
    pub failure: Option<u64>,
}

/// One entry of the reported patch.
#[derive(Clone, Copy, Debug, PartialEq, Eq, Structural)]
pub struct Report {
    pub feature: u64,
    pub version: u8,
    pub failure: Option<u64>,
}

/// The first registered descriptor with this identifier.
pub open spec fn lookup(reg: Seq<Descriptor>, id: u64) -> Option<Descriptor>
    decreases reg.len(),
{
    if reg.len() == 0 {
        None
    } else if reg[0].id == id {
        Some(reg[0])
    } else {
        lookup(reg.drop_first(), id)
    }
}

/// The reported patch for `patch`: one report per entry routed to an enabled
/// feature, in patch order; unknown and disabled features are left out.
pub open spec fn reports(reg: Seq<Descriptor>, patch: Seq<Applied>) -> Seq<Report>
    decreases patch.len(),
{
    if patch.len() == 0 {
        seq![]
    } else {
        let rest = reports(reg, patch.drop_last());
        let a = patch.last();
        match lookup(reg, a.feature) {
            Some(d) => if d.enabled {
                rest.push(Report { feature: a.feature, version: d.version, failure: a.failure })
            } else {
                rest
            },
            None => rest,
        }
    }
}

pub fn find(reg: &Vec<Descriptor>, id: u64) -> (r: Option<Descriptor>)
    ensures
        r == lookup(reg@, id),
{
    let mut i: usize = 0;
    assert(reg@.subrange(0, reg.len() as int) == reg@);
    while i < reg.len()
        invariant
            i <= reg.len(),
            lookup(reg@, id) == lookup(reg@.subrange(i as int, reg.len() as int), id),
        decreases reg.len() - i,
    {
        let ghost rest = reg@.subrange(i as int, reg.len() as int);
        assert(rest.drop_first() == reg@.subrange(i + 1, reg.len() as int));
        if reg[i].id == id {
            return Some(reg[i]);
        }
        i = i + 1;
    }
    proof {
        assert(reg@.subrange(i as int, reg.len() as int).len() == 0);
    }
    None
}

/// No two descriptors share an identifier.
pub open spec fn unique_ids(s: Seq<Descriptor>) -> bool {
    forall|i: int, j: int| 0 <= i < s.len() && 0 <= j < s.len() && #[trigger] s[i].id == #[trigger] s[j].id ==> i == j
}

/// The enabled descriptors of `s`, in registration order.
pub open spec fn enabled_of(s: Seq<Descriptor>) -> Seq<Descriptor>
    decreases s.len(),
{
    if s.len() == 0 {
        seq![]
    } else if s.last().enabled {
        enabled_of(s.drop_last()).push(s.last())
    } else {
        enabled_of(s.drop_last())
    }
}

/// The feature a desired entry for `id` goes to: the registered one, if enabled.
pub open spec fn routed(s: Seq<Descriptor>, id: u64) -> Option<Descriptor> {
    match lookup(s, id) {
        Some(d) => if d.enabled {
            Some(d)
        } else {
            None
        },
        None => None,
    }
}

pub proof fn lemma_lookup_none(s: Seq<Descriptor>, id: u64)
    ensures
        lookup(s, id) is None <==> forall|i: int| 0 <= i < s.len() ==> #[trigger] s[i].id != id,
    decreases s.len(),
{
    if s.len() > 0 {
        lemma_lookup_none(s.drop_first(), id);
        assert forall|i: int| 0 < i < s.len() implies #[trigger] s[i].id == s.drop_first()[i - 1].id by {}
        if lookup(s, id) is None {
            assert forall|i: int| 0 <= i < s.len() implies #[trigger] s[i].id != id by {
                if i > 0 {
                    assert(s[i].id == s.drop_first()[i - 1].id);
                }
            }
        }
    }
}

/// The registered features, fixed once start-up is done.
#[derive(Clone, Debug)]
pub struct Registry {
    pub features: Vec<Descriptor>,
}

impl Registry {
    pub open spec fn wf(&self) -> bool {
        unique_ids(self.features@)
    }

    pub fn new() -> (r: Registry)
        ensures
            r.wf(),
            r.features@.len() == 0,
    {
        Registry { features: Vec::new() }
    }

    /// Adds a feature; refused, with the registry unchanged, when its
    /// identifier is already taken.
    pub fn register(&mut self, d: Descriptor) -> (r: bool)
        requires
            old(self).wf(),
        ensures
            final(self).wf(),
            r == (lookup(old(self).features@, d.id) is None),
            r ==> final(self).features@ == old(self).features@.push(d),
            !r ==> final(self).features@ == old(self).features@,
    {
        proof {
            lemma_lookup_none(self.features@, d.id);
        }
        match find(&self.features, d.id) {
            Some(_) => false,
            None => {
                self.features.push(d);
                true
            },
        }
    }

    pub fn by_id(&self, id: u64) -> (r: Option<Descriptor>)
        ensures
            r == lookup(self.features@, id),
    {
        find(&self.features, id)
    }

    /// The enabled features in registration order.
    pub fn enabled_features(&self) -> (r: Vec<Descriptor>)
        ensures
            r@ == enabled_of(self.features@),
    {
        let mut out: Vec<Descriptor> = Vec::new();
        let mut i: usize = 0;
        while i < self.features.len()
            invariant
                i <= self.features.len(),
                out@ == enabled_of(self.features@.subrange(0, i as int)),
            decreases self.features.len() - i,
        {
            assert(self.features@.subrange(0, i + 1).drop_last() == self.features@.subrange(0, i as int));
            if self.features[i].enabled {
                out.push(self.features[i]);
            }
            i = i + 1;
        }
        assert(self.features@.subrange(0, self.features.len() as int) == self.features@);
        out
    }

    /// For each key of a desired patch, the feature its value goes to:
    /// none for unknown and disabled features.
    pub fn route(&self, keys: &Vec<u64>) -> (r: Vec<Option<Descriptor>>)
        ensures
            r@.len() == keys@.len(),
            forall|i: int| 0 <= i < keys@.len() ==> #[trigger] r@[i] == routed(self.features@, keys@[i]),
    {
        let mut out: Vec<Option<Descriptor>> = Vec::new();
        let mut i: usize = 0;
        while i < keys.len()
            invariant
                i <= keys.len(),
                out@.len() == i,
                forall|j: int| 0 <= j < i ==> #[trigger] out@[j] == routed(self.features@, keys@[j]),
            decreases keys.len() - i,
        {
            let t = match find(&self.features, keys[i]) {
                Some(d) => if d.enabled {
                    Some(d)
                } else {
                    None
                },
                None => None,
            };
            out.push(t);
            i = i + 1;
        }
        out
    }
}

/// The last report of `id` after `prev` and then the reports `reps`.
pub open spec fn latest(prev: Option<Report>, reps: Seq<Report>, id: u64) -> Option<Report>
    decreases reps.len(),
{
    if reps.len() == 0 {
        prev
    } else if reps.last().feature == id {
        Some(reps.last())
    } else {
        latest(prev, reps.drop_last(), id)
    }
}

/// The reports present in `s`, in order.
pub open spec fn present(s: Seq<Option<Report>>) -> Seq<Report>
    decreases s.len(),
{
    if s.len() == 0 {
        seq![]
    } else {
        match s.last() {
            Some(r) => present(s.drop_last()).push(r),
            None => present(s.drop_last()),
        }
    }
}

/// The reconciliation engine: a registry and the last status reported for
/// each registered feature, kept so the full state can be sent again after
/// a reconnect.
#[derive(Clone, Debug)]
pub struct Engine {
    pub registry: Registry,
    /// `last[k]` is the last report of the `k`-th registered feature.
    pub last: Vec<Option<Report>>,
}

impl Engine {
    pub open spec fn wf(&self) -> bool {
        self.registry.wf() && self.last@.len() == self.registry.features@.len()
    }

    pub fn new(registry: Registry) -> (r: Engine)
        requires
            registry.wf(),
        ensures
            r.wf(),
            r.registry == registry,
            forall|k: int| 0 <= k < r.last@.len() ==> #[trigger] r.last@[k] is None,
    {
        let mut last: Vec<Option<Report>> = Vec::new();
        let mut i: usize = 0;
        while i < registry.features.len()
            invariant
                i <= registry.features.len(),
                last@.len() == i,
                forall|k: int| 0 <= k < i ==> #[trigger] last@[k] is None,
            decreases registry.features.len() - i,
        {
            last.push(None);
            i = i + 1;
        }
        Engine { registry, last }
    }

    /// Reconciles one desired patch: builds its reported patch and keeps
    /// each reported status as the feature's latest.
    pub fn reconcile(&mut self, patch: &Vec<Applied>) -> (r: Vec<Report>)
        requires
            old(self).wf(),
        ensures
            final(self).wf(),
            final(self).registry.features@ == old(self).registry.features@,
            r@ == reports(old(self).registry.features@, patch@),
            forall|k: int| 0 <= k < final(self).last@.len() ==> #[trigger] final(self).last@[k] == latest(
                old(self).last@[k],
                r@,
                old(self).registry.features@[k].id,
            ),
    {
        let r = apply_patch(&self.registry.features, patch);
        let ghost prev = self.last@;
        let ghost ids = self.registry.features@;
        let mut i: usize = 0;
        while i < r.len()
            invariant
                i <= r.len(),
                self.wf(),
                self.registry.features@ == ids,
                prev.len() == ids.len(),
                forall|k: int| 0 <= k < self.last@.len() ==> #[trigger] self.last@[k] == latest(
                    prev[k],
                    r@.subrange(0, i as int),
                    ids[k].id,
                ),
            decreases r.len() - i,
        {
            assert(r@.subrange(0, i + 1).drop_last() == r@.subrange(0, i as int));
            let rep = r[i];
            let mut k: usize = 0;
            while k < self.registry.features.len() && self.registry.features[k].id != rep.feature
                invariant
                    k <= self.registry.features.len(),
                    self.registry.features@ == ids,
                    forall|j: int| 0 <= j < k ==> #[trigger] ids[j].id != rep.feature,
                decreases self.registry.features.len() - k,
            {
                k = k + 1;
            }
            let ghost before = self.last@;
            if k < self.last.len() {
                self.last.set(k, Some(rep));
            }
            proof {
                let sub = r@.subrange(0, i + 1);
                assert(sub.last() == rep);
                assert forall|j: int| 0 <= j < self.last@.len() implies #[trigger] self.last@[j] == latest(
                    prev[j],
                    sub,
                    ids[j].id,
                ) by {
                    if j != k {
                        if ids[j].id == rep.feature {
                            assert(ids[k as int].id == ids[j].id);
                        }
                        assert(self.last@[j] == before[j]);
                    }
                }
            }
            i = i + 1;
        }
        assert(r@.subrange(0, r.len() as int) == r@);
        r
    }

    /// The full reported state, in registration order.
    pub fn full_state(&self) -> (r: Vec<Report>)
        ensures
            r@ == present(self.last@),
    {
        let mut out: Vec<Report> = Vec::new();
        let mut i: usize = 0;
        while i < self.last.len()
            invariant
                i <= self.last.len(),
                out@ == present(self.last@.subrange(0, i as int)),
            decreases self.last.len() - i,
        {
            assert(self.last@.subrange(0, i + 1).drop_last() == self.last@.subrange(0, i as int));
            match self.last[i] {
                Some(rep) => out.push(rep),
                None => {},
            }
            i = i + 1;
        }
        assert(self.last@.subrange(0, self.last.len() as int) == self.last@);
        out
    }
}

/// Routes the outcomes of one desired patch into a reported patch.
pub fn apply_patch(reg: &Vec<Descriptor>, patch: &Vec<Applied>) -> (r: Vec<Report>)
    ensures
        r@ == reports(reg@, patch@),
{
    let mut out: Vec<Report> = Vec::new();
    let mut i: usize = 0;
    while i < patch.len()
        invariant
            i <= patch.len(),
            out@ == reports(reg@, patch@.subrange(0, i as int)),
        decreases patch.len() - i,
    {
        assert(patch@.subrange(0, i + 1).drop_last() == patch@.subrange(0, i as int));
        let a = patch[i];
        match find(reg, a.feature) {
            Some(d) => {
                if d.enabled {
                    out.push(Report { feature: a.feature, version: d.version, failure: a.failure });
                }
            },
            None => {},
        }
        i = i + 1;
    }
    assert(patch@.subrange(0, patch.len() as int) == patch@);
    out
}

/// A failing feature does not keep others from being reported: every entry
/// of a patch that reaches an enabled feature is reported with its own
/// outcome, whatever the outcomes of the entries before it.
pub proof fn lemma_no_interference(reg: Seq<Descriptor>, patch: Seq<Applied>, a: Applied)
    ensures
        match lookup(reg, a.feature) {
            Some(d) => d.enabled ==> reports(reg, patch.push(a)) == reports(reg, patch).push(
                Report { feature: a.feature, version: d.version, failure: a.failure },
            ),
            None => true,
        },
{
    assert(patch.push(a).drop_last() == patch);
}

/// An entry for a feature that is not registered is left out of the
/// reported patch, not reported as failed.
pub proof fn lemma_unknown_key_omitted(reg: Seq<Descriptor>, patch: Seq<Applied>, a: Applied)
    requires
        lookup(reg, a.feature) is None,
    ensures
        reports(reg, patch.push(a)) == reports(reg, patch),
{
    assert(patch.push(a).drop_last() == patch);
}

} // verus!
